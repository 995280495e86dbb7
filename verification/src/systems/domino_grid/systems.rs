use vstd::prelude::*;
use crate::helpers::dragging::{Draggable, IsDragging};
use crate::helpers::transform::{world_to_transform, Point, Rotation, Transform, TILE_SIZE};
use crate::systems::assets::{domino_sprite, DominoesAssetInfo, LoadedAssets, Sprite};
use crate::systems::cursor::CursorWorldCoords;
use crate::systems::domino_grid::components::{
    Domino, DominoType, GridSquare, Piece, PlacementArea, PIECE_LAYER,
};
use crate::systems::domino_grid::events::{DominoPlacementEvent, DragEndEvent, PieceId};

verus! {

/// Number of columns of the grid.
pub const GRID_WIDTH: i32 = 10;

/// Number of rows of the grid.
pub const GRID_HEIGHT: i32 = 10;

/// Draw-order layer of the backdrop squares, below the pieces.
pub const GRID_LAYER: i64 = 0;

/// Tile row of the lower of the two rows in which the pieces are laid out.
pub const SPAWN_AREA_Y: i32 = 12;

/// The tile on which piece number `index` of the pool is laid out: eight
/// pieces to a row, three tiles apart, the rows two tiles apart.
pub open spec fn spawn_tile(index: int) -> (int, int) {
    (-4 + (index % 8) * 3, SPAWN_AREA_Y + (index / 8) * 2)
}

/// Piece number `index` of a fresh pool: horizontal, draggable, not held,
/// unrotated on the piece layer.
pub open spec fn spawned_piece(index: int) -> Piece {
    Piece {
        domino: Domino { d_type: DominoType::all_types_spec()[index], horizontal: true },
        transform: Transform {
            x: (TILE_SIZE * spawn_tile(index).0) as i64,
            y: (TILE_SIZE * spawn_tile(index).1) as i64,
            z: PIECE_LAYER,
            rotation: Rotation::Deg0,
        },
        draggable: Some(Draggable),
        dragging: None,
        sprite: None,
        observed: false,
    }
}

/// The pool of a fresh session: one piece of each of the sixteen variants.
pub open spec fn spawned_pieces() -> Seq<Piece> {
    Seq::new(16, |index: int| spawned_piece(index))
}

/// Spawns the piece pool: one piece of each variant is added to the arena,
/// in the order of `DominoType::all_types`.
pub fn init(pieces: &mut Vec<Piece>)
    ensures
        final(pieces)@ == old(pieces)@ + spawned_pieces(),
{
    let all_types: Vec<DominoType> = DominoType::all_types();
    let mut index: usize = 0;
    while index < all_types.len()
        invariant
            index <= all_types.len(),
            all_types@ == DominoType::all_types_spec(),
            all_types.len() == 16,
            pieces@ == old(pieces)@ + Seq::new(index as nat, |k: int| spawned_piece(k)),
        decreases all_types.len() - index,
    {
        let x_offset: i32 = ((index % 8) * 3) as i32;
        let y_offset: i32 = ((index / 8) * 2) as i32;
        let piece = Piece {
            domino: Domino { d_type: all_types[index], horizontal: true },
            transform: world_to_transform(-4 + x_offset, SPAWN_AREA_Y + y_offset, PIECE_LAYER),
            draggable: Some(Draggable),
            dragging: None,
            sprite: None,
            observed: false,
        };
        assert(piece == spawned_piece(index as int));
        pieces.push(piece);
        index += 1;
        assert(pieces@ =~= old(pieces)@ + Seq::new(index as nat, |k: int| spawned_piece(k)));
    }
}

/// The placement areas that the cells `(col, 0)` to `(col, rows - 1)` of
/// one grid column contribute, in the order in which they are created: for
/// each cell a horizontal area, unless the column is the last one, then a
/// vertical area, unless the row is the top one.
pub open spec fn column_areas(col: int, rows: nat) -> Seq<PlacementArea>
    decreases rows,
{
    if rows == 0 {
        Seq::empty()
    } else {
        let row = rows - 1;
        let below = column_areas(col, row as nat);
        let with_horizontal = if col < GRID_WIDTH - 1 {
            below.push(PlacementArea::Horizontal { left_cell_col: col as i32, row: row as i32 })
        } else {
            below
        };
        if row < GRID_HEIGHT - 1 {
            with_horizontal.push(
                PlacementArea::Vertical { bottom_cell_row: row as i32, column: col as i32 },
            )
        } else {
            with_horizontal
        }
    }
}

/// The placement areas of the first `cols` columns of the grid, column by
/// column.
pub open spec fn grid_columns(cols: nat) -> Seq<PlacementArea>
    decreases cols,
{
    if cols == 0 {
        Seq::empty()
    } else {
        grid_columns((cols - 1) as nat) + column_areas(cols - 1, GRID_HEIGHT as nat)
    }
}

/// The placement areas of a fresh grid, in storage order.
pub open spec fn grid_areas() -> Seq<PlacementArea> {
    grid_columns(GRID_WIDTH as nat)
}

/// Backdrop square number `k` of a fresh grid, counted column by column: it
/// lies on the centre of its cell, on the grid layer.
pub open spec fn grid_square(k: int) -> GridSquare {
    GridSquare {
        transform: Transform {
            x: (TILE_SIZE * (k / (GRID_HEIGHT as int))) as i64,
            y: (TILE_SIZE * (k % (GRID_HEIGHT as int))) as i64,
            z: GRID_LAYER,
            rotation: Rotation::Deg0,
        },
        sprite: None,
    }
}

/// The backdrop squares of a fresh grid, one for each cell.
pub open spec fn grid_squares() -> Seq<GridSquare> {
    Seq::new((GRID_WIDTH * GRID_HEIGHT) as nat, |k: int| grid_square(k))
}

/// Builds the grid: a backdrop square for every cell, a horizontal
/// placement area for every cell that has a right neighbour and a vertical
/// one for every cell that has a neighbour above.
pub fn init_grid(squares: &mut Vec<GridSquare>, placement_areas: &mut Vec<PlacementArea>)
    ensures
        final(squares)@ == old(squares)@ + grid_squares(),
        final(placement_areas)@ == old(placement_areas)@ + grid_areas(),
{
    let grid_width: i32 = GRID_WIDTH;
    let grid_height: i32 = GRID_HEIGHT;
    let mut i: i32 = 0;
    while i < grid_width
        invariant
            0 <= i <= grid_width,
            grid_width == GRID_WIDTH,
            grid_height == GRID_HEIGHT,
            squares@ == old(squares)@ + Seq::new(
                (i * GRID_HEIGHT) as nat,
                |k: int| grid_square(k),
            ),
            placement_areas@ == old(placement_areas)@ + grid_columns(i as nat),
        decreases grid_width - i,
    {
        let mut j: i32 = 0;
        while j < grid_height
            invariant
                0 <= i < grid_width,
                0 <= j <= grid_height,
                grid_width == GRID_WIDTH,
                grid_height == GRID_HEIGHT,
                squares@ == old(squares)@ + Seq::new(
                    (i * GRID_HEIGHT + j) as nat,
                    |k: int| grid_square(k),
                ),
                placement_areas@ == old(placement_areas)@ + grid_columns(i as nat) + column_areas(
                    i as int,
                    j as nat,
                ),
            decreases grid_height - j,
        {
            let square = GridSquare { transform: world_to_transform(i, j, GRID_LAYER), sprite: None };
            assert(square == grid_square(i * GRID_HEIGHT + j));
            squares.push(square);
            if i < grid_width - 1 {
                placement_areas.push(PlacementArea::Horizontal { left_cell_col: i, row: j });
            }
            if j < grid_height - 1 {
                placement_areas.push(PlacementArea::Vertical { bottom_cell_row: j, column: i });
            }
            j += 1;
            assert(squares@ =~= old(squares)@ + Seq::new(
                (i * GRID_HEIGHT + j) as nat,
                |k: int| grid_square(k),
            ));
            assert(placement_areas@ =~= old(placement_areas)@ + grid_columns(i as nat)
                + column_areas(i as int, j as nat));
        }
        i += 1;
        assert(placement_areas@ =~= old(placement_areas)@ + grid_columns(i as nat));
    }
}

/// Whether `area` is one of the slots of a grid of `GRID_WIDTH` by
/// `GRID_HEIGHT` cells: both of its cells lie on the grid.
pub open spec fn on_grid(area: PlacementArea) -> bool {
    match area {
        PlacementArea::Horizontal { left_cell_col, row } => {
            &&& 0 <= left_cell_col < GRID_WIDTH - 1
            &&& 0 <= row < GRID_HEIGHT
        },
        PlacementArea::Vertical { bottom_cell_row, column } => {
            &&& 0 <= bottom_cell_row < GRID_HEIGHT - 1
            &&& 0 <= column < GRID_WIDTH
        },
    }
}

/// The horizontal areas among `areas`, in their order.
pub open spec fn horizontal_areas(areas: Seq<PlacementArea>) -> Seq<PlacementArea> {
    areas.filter(|area: PlacementArea| area.is_horizontal())
}

/// The vertical areas among `areas`, in their order.
pub open spec fn vertical_areas(areas: Seq<PlacementArea>) -> Seq<PlacementArea> {
    areas.filter(|area: PlacementArea| !area.is_horizontal())
}

proof fn lemma_column_areas(col: int, rows: nat, area: PlacementArea)
    requires
        0 <= col < GRID_WIDTH,
        rows <= GRID_HEIGHT,
    ensures
        horizontal_areas(column_areas(col, rows)).len() == if col < GRID_WIDTH - 1 {
            rows
        } else {
            0
        },
        vertical_areas(column_areas(col, rows)).len() == if rows < GRID_HEIGHT {
            rows
        } else {
            (GRID_HEIGHT - 1) as nat
        },
        column_areas(col, rows).contains(area) <==> on_grid(area) && area.first_cell().0 == col
            && area.first_cell().1 < rows,
    decreases rows,
{
    broadcast use Seq::lemma_filter_push, vstd::seq_lib::lemma_seq_contains_after_push;

    if rows == 0 {
        reveal(Seq::filter);
        assert(!column_areas(col, rows).contains(area));
    } else {
        lemma_column_areas(col, (rows - 1) as nat, area);
    }
}

proof fn lemma_grid_columns(cols: nat, area: PlacementArea)
    requires
        cols <= GRID_WIDTH,
    ensures
        horizontal_areas(grid_columns(cols)).len() == if cols < GRID_WIDTH {
            cols * GRID_HEIGHT
        } else {
            (GRID_WIDTH - 1) * GRID_HEIGHT
        },
        vertical_areas(grid_columns(cols)).len() == cols * (GRID_HEIGHT - 1),
        grid_columns(cols).contains(area) <==> on_grid(area) && area.first_cell().0 < cols,
    decreases cols,
{
    broadcast use
        Seq::filter_distributes_over_add,
        vstd::seq_lib::lemma_seq_concat_contains_all_elements,
    ;

    if cols == 0 {
        reveal(Seq::filter);
        assert(!grid_columns(cols).contains(area));
    } else {
        lemma_grid_columns((cols - 1) as nat, area);
        lemma_column_areas(cols - 1, GRID_HEIGHT as nat, area);
    }
}

/// The fresh grid holds `(GRID_WIDTH - 1) * GRID_HEIGHT` horizontal and
/// `GRID_WIDTH * (GRID_HEIGHT - 1)` vertical placement areas, and an area
/// is among them exactly if both of its cells lie on the grid.
pub proof fn lemma_grid_areas(area: PlacementArea)
    ensures
        horizontal_areas(grid_areas()).len() == (GRID_WIDTH - 1) * GRID_HEIGHT,
        vertical_areas(grid_areas()).len() == GRID_WIDTH * (GRID_HEIGHT - 1),
        grid_areas().contains(area) <==> on_grid(area),
{
    lemma_grid_columns(GRID_WIDTH as nat, area);
}

/// Ends the session: every piece and every placement area is destroyed.
/// The backdrop is not touched.
pub fn reset(pieces: &mut Vec<Piece>, placement_areas: &mut Vec<PlacementArea>)
    ensures
        final(pieces)@ == Seq::<Piece>::empty(),
        final(placement_areas)@ == Seq::<PlacementArea>::empty(),
{
    pieces.clear();
    placement_areas.clear();
}

/// Ends the session and starts a fresh one: the pieces and the placement
/// areas are destroyed, then the pool is spawned and the grid is built
/// again.  Whatever the state was, the pieces and the placement areas are
/// afterwards those of a fresh session.  The backdrop squares of the old
/// grid stay, and those of the new grid are added to them.
pub fn restart(
    pieces: &mut Vec<Piece>,
    squares: &mut Vec<GridSquare>,
    placement_areas: &mut Vec<PlacementArea>,
)
    ensures
        final(pieces)@ == spawned_pieces(),
        final(placement_areas)@ == grid_areas(),
        final(squares)@ == old(squares)@ + grid_squares(),
{
    reset(pieces, placement_areas);
    init(pieces);
    init_grid(squares, placement_areas);
    assert(pieces@ =~= spawned_pieces());
    assert(placement_areas@ =~= grid_areas());
}

/// Colour in which the debug overlay draws a hit box.
#[derive(Clone, Copy, Debug, PartialEq, Eq, Structural)]
pub enum HitboxColor {
    /// Hit boxes for horizontal pieces.
    Red,
    /// Hit boxes for vertical pieces.
    Green,
}

/// A hit box as the debug overlay draws it.
#[derive(Clone, Copy, Debug, PartialEq, Eq, Structural)]
pub struct Hitbox {
    pub center: Point,
    pub width: i64,
    pub height: i64,
    pub color: HitboxColor,
}

/// The hit box of `area`: a square of `TILE_SIZE` by `TILE_SIZE` units
/// around the anchor, red for a horizontal area and green for a vertical
/// one.
pub open spec fn hitbox_of(area: PlacementArea) -> Hitbox {
    Hitbox {
        center: Point { x: area.anchor().0 as i64, y: area.anchor().1 as i64 },
        width: TILE_SIZE,
        height: TILE_SIZE,
        color: if area.is_horizontal() {
            HitboxColor::Red
        } else {
            HitboxColor::Green
        },
    }
}

/// Lists the hit boxes of the live placement areas, in storage order, for
/// the debug overlay to draw.
pub fn debug_draw_placement_areas(placement_areas: &Vec<PlacementArea>) -> (boxes: Vec<Hitbox>)
    ensures
        boxes@ == placement_areas@.map_values(|area: PlacementArea| hitbox_of(area)),
{
    let mut boxes: Vec<Hitbox> = Vec::new();
    let mut i: usize = 0;
    while i < placement_areas.len()
        invariant
            i <= placement_areas.len(),
            boxes@ == placement_areas@.take(i as int).map_values(
                |area: PlacementArea| hitbox_of(area),
            ),
        decreases placement_areas.len() - i,
    {
        let placement: PlacementArea = placement_areas[i];
        let anchor: Transform = placement.transform();
        let color = match placement {
            PlacementArea::Horizontal { .. } => HitboxColor::Red,
            PlacementArea::Vertical { .. } => HitboxColor::Green,
        };
        boxes.push(Hitbox { center: anchor.truncate(), width: TILE_SIZE, height: TILE_SIZE, color });
        i += 1;
        assert(boxes@ =~= placement_areas@.take(i as int).map_values(
            |area: PlacementArea| hitbox_of(area),
        ));
    }
    assert(placement_areas@.take(i as int) =~= placement_areas@);
    boxes
}

/// The square with `sprite` attached, unless it already has a sprite.
pub open spec fn dressed_square(square: GridSquare, sprite: Sprite) -> GridSquare {
    if square.sprite is None {
        GridSquare { sprite: Some(sprite), ..square }
    } else {
        square
    }
}

/// Gives every backdrop square that has no sprite yet the image of the
/// grid square.
pub fn on_grid_square_spawn(squares: &mut Vec<GridSquare>, loaded_assets: &LoadedAssets)
    ensures
        final(squares)@ == old(squares)@.map_values(
            |square: GridSquare|
                dressed_square(
                    square,
                    Sprite {
                        image: loaded_assets.images.grid_square.image,
                        texture_atlas: None,
                        flip_x: false,
                    },
                ),
        ),
{
    let ghost dress = |square: GridSquare|
        dressed_square(
            square,
            Sprite {
                image: loaded_assets.images.grid_square.image,
                texture_atlas: None,
                flip_x: false,
            },
        );
    let mut i: usize = 0;
    while i < squares.len()
        invariant
            i <= squares.len(),
            squares.len() == old(squares).len(),
            dress == |square: GridSquare|
                dressed_square(
                    square,
                    Sprite {
                        image: loaded_assets.images.grid_square.image,
                        texture_atlas: None,
                        flip_x: false,
                    },
                ),
            forall|k: int| 0 <= k < i ==> squares@[k] == dress(old(squares)@[k]),
            forall|k: int| i <= k < squares.len() ==> squares@[k] == old(squares)@[k],
        decreases squares.len() - i,
    {
        let square: GridSquare = squares[i];
        if square.sprite.is_none() {
            squares.set(
                i,
                GridSquare { sprite: Some(loaded_assets.images.grid_square.get_sprite()), ..square },
            );
        }
        i += 1;
    }
    assert(squares@ =~= old(squares)@.map_values(dress));
}

/// The piece with the sprite of its kind attached, unless it already has
/// a sprite.
pub open spec fn dressed_piece(piece: Piece, sheet: DominoesAssetInfo) -> Piece {
    if piece.sprite is None {
        Piece { sprite: Some(domino_sprite(sheet, piece.domino.d_type)), ..piece }
    } else {
        piece
    }
}

/// Gives every piece that has no sprite yet the sprite of its kind.  Where
/// there is such a piece the domino atlas has to be set, which
/// initialisation does before any piece is spawned.
pub fn on_domino_spawn(pieces: &mut Vec<Piece>, loaded_assets: &LoadedAssets)
    requires
        (exists|k: int| 0 <= k < old(pieces).len() && old(pieces)@[k].sprite is None)
            ==> loaded_assets.images.dominoes.image_asset.atlas is Some,
    ensures
        final(pieces)@ == old(pieces)@.map_values(
            |piece: Piece| dressed_piece(piece, loaded_assets.images.dominoes),
        ),
{
    let ghost dress = |piece: Piece| dressed_piece(piece, loaded_assets.images.dominoes);
    let mut i: usize = 0;
    while i < pieces.len()
        invariant
            i <= pieces.len(),
            pieces.len() == old(pieces).len(),
            (exists|k: int| 0 <= k < old(pieces).len() && old(pieces)@[k].sprite is None)
                ==> loaded_assets.images.dominoes.image_asset.atlas is Some,
            dress == |piece: Piece| dressed_piece(piece, loaded_assets.images.dominoes),
            forall|k: int| 0 <= k < i ==> pieces@[k] == dress(old(pieces)@[k]),
            forall|k: int| i <= k < pieces.len() ==> pieces@[k] == old(pieces)@[k],
        decreases pieces.len() - i,
    {
        let piece: Piece = pieces[i];
        if piece.sprite.is_none() {
            assert(old(pieces)@[i as int].sprite is None);
            let sprite: Sprite = loaded_assets.images.dominoes.get_domino(&piece.domino.d_type);
            pieces.set(i, Piece { sprite: Some(sprite), ..piece });
        }
        i += 1;
    }
    assert(pieces@ =~= old(pieces)@.map_values(dress));
}

/// Whether pointer events reach the piece: it is observed and may be
/// dragged.
pub open spec fn listens(piece: Piece) -> bool {
    piece.observed && piece.draggable is Some
}

/// The piece once pointer events are routed to it, if it may be dragged.
pub open spec fn observing(piece: Piece) -> Piece {
    if piece.draggable is Some {
        Piece { observed: true, ..piece }
    } else {
        piece
    }
}

/// Starts to route pointer events to every piece that may be dragged.
/// From then on a press on the piece picks it up, a drag moves it and a
/// release ends the drag: see `on_pointer_down`, `on_pointer_drag` and
/// `on_pointer_drag_end`.
pub fn on_draggable_spawn(pieces: &mut Vec<Piece>)
    ensures
        final(pieces)@ == old(pieces)@.map_values(|piece: Piece| observing(piece)),
{
    let mut i: usize = 0;
    while i < pieces.len()
        invariant
            i <= pieces.len(),
            pieces.len() == old(pieces).len(),
            forall|k: int| 0 <= k < i ==> pieces@[k] == observing(old(pieces)@[k]),
            forall|k: int| i <= k < pieces.len() ==> pieces@[k] == old(pieces)@[k],
        decreases pieces.len() - i,
    {
        let piece: Piece = pieces[i];
        if piece.draggable.is_some() && !piece.observed {
            pieces.set(i, Piece { observed: true, ..piece });
        }
        i += 1;
    }
    assert(pieces@ =~= old(pieces)@.map_values(|piece: Piece| observing(piece)));
}

/// Whether `target` names a piece that pointer events reach.
pub open spec fn reaches(pieces: Seq<Piece>, target: PieceId) -> bool {
    target.0 < pieces.len() && listens(pieces[target.0 as int])
}

/// The pieces after a press on `target`.
pub open spec fn after_pointer_down(pieces: Seq<Piece>, target: PieceId) -> Seq<Piece> {
    if reaches(pieces, target) {
        pieces.update(target.0 as int, picked_up(pieces[target.0 as int]))
    } else {
        pieces
    }
}

/// The pieces after a drag of `target` with the cursor at `cursor`.
pub open spec fn after_pointer_drag(pieces: Seq<Piece>, target: PieceId, cursor: Point) -> Seq<
    Piece,
> {
    if reaches(pieces, target) && is_held(pieces, target) {
        pieces.update(target.0 as int, moved_to(pieces[target.0 as int], cursor))
    } else {
        pieces
    }
}

/// The pieces after the rotate action: every held piece has turned.
pub open spec fn after_rotate(pieces: Seq<Piece>) -> Seq<Piece> {
    pieces.map_values(
        |piece: Piece|
            if piece.dragging is Some {
                rotated(piece)
            } else {
                piece
            },
    )
}

/// The piece once the pointer holds it: it remembers where it stands.
pub open spec fn picked_up(piece: Piece) -> Piece {
    Piece {
        dragging: Some(IsDragging { start_location: piece.transform.position() }),
        ..piece
    }
}

/// The piece moved to `cursor`, on its layer and with its rotation.
pub open spec fn moved_to(piece: Piece, cursor: Point) -> Piece {
    Piece { transform: Transform { x: cursor.x, y: cursor.y, ..piece.transform }, ..piece }
}

/// Pick-up: a press on a piece that listens makes the pointer hold it, and
/// the piece records its position as the place to return to.  A press on
/// anything else changes nothing.
pub fn on_pointer_down(pieces: &mut Vec<Piece>, target: PieceId)
    ensures
        final(pieces)@ == after_pointer_down(old(pieces)@, target),
{
    if target.0 < pieces.len() {
        let piece: Piece = pieces[target.0];
        if piece.observed && piece.draggable.is_some() {
            pieces.set(
                target.0,
                Piece {
                    dragging: Some(IsDragging { start_location: piece.transform.truncate() }),
                    ..piece
                },
            );
        }
    }
}

/// Move: while the pointer holds a piece that listens, a drag puts the
/// piece on the cursor.  A drag of anything else changes nothing.
pub fn on_pointer_drag(pieces: &mut Vec<Piece>, target: PieceId, mycoords: &CursorWorldCoords)
    ensures
        final(pieces)@ == after_pointer_drag(old(pieces)@, target, mycoords.0),
{
    if target.0 < pieces.len() {
        let piece: Piece = pieces[target.0];
        if piece.observed && piece.draggable.is_some() && piece.dragging.is_some() {
            pieces.set(
                target.0,
                Piece {
                    transform: Transform { x: mycoords.0.x, y: mycoords.0.y, ..piece.transform },
                    ..piece
                },
            );
        }
    }
}

/// Release: letting go of a piece that listens sends one notification that
/// names the piece.  What becomes of the piece is decided by
/// `handle_drag_end`.
pub fn on_pointer_drag_end(pieces: &Vec<Piece>, target: PieceId) -> (sent: Option<DragEndEvent>)
    ensures
        sent == if reaches(pieces@, target) {
            Some(DragEndEvent { draggable: target })
        } else {
            None
        },
{
    if target.0 < pieces.len() {
        let piece: Piece = pieces[target.0];
        if piece.observed && piece.draggable.is_some() {
            return Some(DragEndEvent { draggable: target });
        }
    }
    None
}

/// The piece turned by a quarter turn: its rotation advances and its
/// orientation flips.
pub open spec fn rotated(piece: Piece) -> Piece {
    Piece {
        transform: Transform { rotation: piece.transform.rotation.turned(), ..piece.transform },
        domino: Domino { horizontal: !piece.domino.horizontal, ..piece.domino },
        ..piece
    }
}

/// Rotation: when the rotate action has just been pressed, every piece
/// that the pointer holds turns by a quarter turn.  Nothing else changes:
/// not the place to return to, not the hold, and no piece that is not held.
pub fn handle_dragging(pieces: &mut Vec<Piece>, rotate_just_pressed: bool)
    ensures
        final(pieces)@ == if rotate_just_pressed {
            after_rotate(old(pieces)@)
        } else {
            old(pieces)@
        },
{
    let mut i: usize = 0;
    while i < pieces.len()
        invariant
            i <= pieces.len(),
            pieces.len() == old(pieces).len(),
            forall|k: int|
                0 <= k < i ==> pieces@[k] == if rotate_just_pressed && old(
                    pieces,
                )@[k].dragging is Some {
                    rotated(old(pieces)@[k])
                } else {
                    old(pieces)@[k]
                },
            forall|k: int| i <= k < pieces.len() ==> pieces@[k] == old(pieces)@[k],
        decreases pieces.len() - i,
    {
        let piece: Piece = pieces[i];
        if piece.dragging.is_some() {
            if rotate_just_pressed {
                pieces.set(
                    i,
                    Piece {
                        transform: Transform {
                            rotation: piece.transform.rotation.quarter_turn(),
                            ..piece.transform
                        },
                        domino: Domino { horizontal: !piece.domino.horizontal, ..piece.domino },
                        ..piece
                    },
                );
            }
        }
        i += 1;
    }
    if rotate_just_pressed {
        assert(pieces@ =~= after_rotate(old(pieces)@));
    } else {
        assert(pieces@ =~= old(pieces)@);
    }
}

/// The placement notification that a snap into `area` sends.
pub open spec fn placement_of(area: PlacementArea) -> DominoPlacementEvent {
    match area {
        PlacementArea::Horizontal { left_cell_col, row } => DominoPlacementEvent::Horizontal {
            left_cell_col,
            row,
        },
        PlacementArea::Vertical { bottom_cell_row, column } => DominoPlacementEvent::Vertical {
            bottom_cell_row,
            column,
        },
    }
}

/// The first area, in storage order, that accepts a piece of the given
/// orientation dropped at `point`.
pub open spec fn first_match(areas: Seq<PlacementArea>, horizontal: bool, point: Point) -> Option<
    PlacementArea,
>
    decreases areas.len(),
{
    if areas.len() == 0 {
        None
    } else if areas[0].accepts(horizontal, point) {
        Some(areas[0])
    } else {
        first_match(areas.skip(1), horizontal, point)
    }
}

/// Whether `id` names a piece that the pointer holds.
pub open spec fn is_held(pieces: Seq<Piece>, id: PieceId) -> bool {
    id.0 < pieces.len() && pieces[id.0 as int].dragging is Some
}

/// The piece after it has snapped into `area`: it stands on the area's
/// anchor, keeps its layer and rotation, and can no longer be dragged.
pub open spec fn snapped(piece: Piece, area: PlacementArea) -> Piece {
    Piece {
        transform: Transform {
            x: area.anchor().0 as i64,
            y: area.anchor().1 as i64,
            ..piece.transform
        },
        draggable: None,
        dragging: None,
        ..piece
    }
}

/// The piece after a drop outside of every matching area: it is back where
/// it was picked up, on the piece layer, and can be dragged again.
pub open spec fn reverted(piece: Piece) -> Piece {
    Piece {
        transform: Transform {
            x: piece.dragging->0.start_location.x,
            y: piece.dragging->0.start_location.y,
            z: PIECE_LAYER,
            ..piece.transform
        },
        dragging: None,
        ..piece
    }
}

/// The area that a released piece snaps into, if there is one.
pub open spec fn drop_target(piece: Piece, areas: Seq<PlacementArea>) -> Option<PlacementArea> {
    first_match(areas, piece.domino.horizontal, piece.transform.position())
}

/// The piece after its release over `areas`.
pub open spec fn released(piece: Piece, areas: Seq<PlacementArea>) -> Piece {
    match drop_target(piece, areas) {
        Some(area) => snapped(piece, area),
        None => reverted(piece),
    }
}

/// Resolves one release.  A notification for a piece that does not exist
/// or is not held changes nothing.  Otherwise the piece snaps into the
/// first area of its own orientation that contains its position, and the
/// placement is reported; where no such area exists the piece returns to
/// where it was picked up and nothing is reported.  The areas are only
/// read.
pub fn handle_drag_end(
    event: &DragEndEvent,
    placement_areas: &Vec<PlacementArea>,
    pieces: &mut Vec<Piece>,
) -> (placed: Option<DominoPlacementEvent>)
    ensures
        !is_held(old(pieces)@, event.draggable) ==> final(pieces)@ == old(pieces)@ && placed
            is None,
        is_held(old(pieces)@, event.draggable) ==> {
            let piece = old(pieces)@[event.draggable.0 as int];
            &&& final(pieces)@ == old(pieces)@.update(
                event.draggable.0 as int,
                released(piece, placement_areas@),
            )
            &&& placed == match drop_target(piece, placement_areas@) {
                Some(area) => Some(placement_of(area)),
                None => None,
            }
        },
{
    let index: usize = event.draggable.0;
    if index >= pieces.len() {
        return None;
    }
    let piece: Piece = pieces[index];
    let dragging_info = match piece.dragging {
        Some(info) => info,
        None => {
            return None;
        },
    };
    let position: Point = piece.transform.truncate();
    let mut i: usize = 0;
    proof {
        assert(placement_areas@.skip(0) =~= placement_areas@);
    }
    while i < placement_areas.len()
        invariant
            i <= placement_areas.len(),
            index == event.draggable.0,
            index < pieces.len(),
            piece.dragging == Some(dragging_info),
            pieces@ == old(pieces)@,
            piece == pieces@[index as int],
            position == piece.transform.position(),
            drop_target(piece, placement_areas@) == first_match(
                placement_areas@.skip(i as int),
                piece.domino.horizontal,
                position,
            ),
        decreases placement_areas.len() - i,
    {
        let placement_area: PlacementArea = placement_areas[i];
        proof {
            assert(placement_areas@.skip(i as int)[0] == placement_area);
            assert(placement_areas@.skip(i as int).skip(1) =~= placement_areas@.skip(i + 1));
        }
        match placement_area {
            PlacementArea::Horizontal { left_cell_col, row } => {
                if piece.domino.horizontal && placement_area.is_this_point_within(position) {
                    let anchor: Transform = placement_area.transform();
                    pieces.set(
                        index,
                        Piece {
                            transform: Transform { x: anchor.x, y: anchor.y, ..piece.transform },
                            draggable: None,
                            dragging: None,
                            ..piece
                        },
                    );
                    return Some(DominoPlacementEvent::Horizontal { left_cell_col, row });
                }
            },
            PlacementArea::Vertical { bottom_cell_row, column } => {
                if !piece.domino.horizontal && placement_area.is_this_point_within(position) {
                    let anchor: Transform = placement_area.transform();
                    pieces.set(
                        index,
                        Piece {
                            transform: Transform { x: anchor.x, y: anchor.y, ..piece.transform },
                            draggable: None,
                            dragging: None,
                            ..piece
                        },
                    );
                    return Some(DominoPlacementEvent::Vertical { bottom_cell_row, column });
                }
            },
        }
        i += 1;
    }
    pieces.set(
        index,
        Piece {
            transform: Transform {
                x: dragging_info.start_location.x,
                y: dragging_info.start_location.y,
                z: PIECE_LAYER,
                ..piece.transform
            },
            dragging: None,
            ..piece
        },
    );
    None
}

/// Whether a horizontal piece placed with its left cell at column
/// `placed_col` of row `placed_row` makes `area` unusable.  Horizontal
/// areas of the same row go if their left cell is at most one column away;
/// vertical areas go if they stand in one of the two columns and start in
/// the row or in the one below it.
pub open spec fn invalidated_by_horizontal(
    area: PlacementArea,
    placed_col: int,
    placed_row: int,
) -> bool {
    match area {
        PlacementArea::Horizontal { left_cell_col, row } => {
            &&& row == placed_row
            &&& placed_col - 1 <= left_cell_col <= placed_col + 1
        },
        PlacementArea::Vertical { bottom_cell_row, column } => {
            &&& placed_row - 1 <= bottom_cell_row <= placed_row
            &&& placed_col <= column <= placed_col + 1
        },
    }
}

/// Whether a vertical piece placed with its bottom cell at row `placed_row`
/// of column `placed_col` makes `area` unusable.  Vertical areas of the
/// same column go if their bottom cell is at most one row away; horizontal
/// areas go if they lie in one of the two rows and start in the column or
/// in the one left of it.
pub open spec fn invalidated_by_vertical(
    area: PlacementArea,
    placed_row: int,
    placed_col: int,
) -> bool {
    match area {
        PlacementArea::Vertical { bottom_cell_row, column } => {
            &&& column == placed_col
            &&& placed_row - 1 <= bottom_cell_row <= placed_row + 1
        },
        PlacementArea::Horizontal { left_cell_col, row } => {
            &&& placed_row <= row <= placed_row + 1
            &&& placed_col - 1 <= left_cell_col <= placed_col
        },
    }
}

/// Whether the placement that `event` reports makes `area` unusable.
pub open spec fn invalidated_by(area: PlacementArea, event: DominoPlacementEvent) -> bool {
    match event {
        DominoPlacementEvent::Horizontal { left_cell_col, row } => invalidated_by_horizontal(
            area,
            left_cell_col as int,
            row as int,
        ),
        DominoPlacementEvent::Vertical { bottom_cell_row, column } => invalidated_by_vertical(
            area,
            bottom_cell_row as int,
            column as int,
        ),
    }
}

/// The areas that the placement leaves, in their old order.
pub open spec fn survivors(areas: Seq<PlacementArea>, event: DominoPlacementEvent) -> Seq<
    PlacementArea,
> {
    areas.filter(|area: PlacementArea| !invalidated_by(area, event))
}

/// Prunes the placement areas after a horizontal placement: every area that
/// the placement invalidates is removed, the others keep their order.  A
/// vertical placement is left to `handle_vertical_domino_placed`.
pub fn handle_horizontal_domino_placed(
    event: &DominoPlacementEvent,
    placement_areas: &mut Vec<PlacementArea>,
)
    ensures
        final(placement_areas)@ == if event is Horizontal {
            survivors(old(placement_areas)@, *event)
        } else {
            old(placement_areas)@
        },
{
    match *event {
        DominoPlacementEvent::Horizontal { left_cell_col: placed_left_cell_col, row: placed_row } => {
            let placed_col: i64 = placed_left_cell_col as i64;
            let mut kept: Vec<PlacementArea> = Vec::new();
            let mut i: usize = 0;
            while i < placement_areas.len()
                invariant
                    i <= placement_areas.len(),
                    placement_areas@ == old(placement_areas)@,
                    placed_col == placed_left_cell_col,
                    *event == (DominoPlacementEvent::Horizontal {
                        left_cell_col: placed_left_cell_col,
                        row: placed_row,
                    }),
                    kept@ == survivors(placement_areas@.take(i as int), *event),
                decreases placement_areas.len() - i,
            {
                let placement_area: PlacementArea = placement_areas[i];
                let should_remove: bool = match placement_area {
                    PlacementArea::Horizontal { left_cell_col: left_cell, row } => {
                        row == placed_row && (left_cell as i64 == placed_col || left_cell as i64
                            == placed_col - 1 || left_cell as i64 == placed_col + 1)
                    },
                    PlacementArea::Vertical { bottom_cell_row, column } => {
                        (bottom_cell_row == placed_row && placed_col == column as i64) || (
                        bottom_cell_row == placed_row && placed_col + 1 == column as i64) || (
                        bottom_cell_row as i64 == placed_row as i64 - 1 && placed_col
                            == column as i64) || (bottom_cell_row as i64 == placed_row as i64 - 1
                            && placed_col + 1 == column as i64)
                    },
                };
                proof {
                    reveal(Seq::filter);
                    assert(placement_areas@.take(i + 1).drop_last() =~= placement_areas@.take(
                        i as int,
                    ));
                    assert(should_remove == invalidated_by(placement_area, *event));
                }
                if !should_remove {
                    kept.push(placement_area);
                }
                i += 1;
            }
            proof {
                assert(placement_areas@.take(i as int) =~= placement_areas@);
            }
            *placement_areas = kept;
        },
        _ => {},
    }
}

/// Prunes the placement areas after a vertical placement: every area that
/// the placement invalidates is removed, the others keep their order.  A
/// horizontal placement is left to `handle_horizontal_domino_placed`.
pub fn handle_vertical_domino_placed(
    event: &DominoPlacementEvent,
    placement_areas: &mut Vec<PlacementArea>,
)
    ensures
        final(placement_areas)@ == if event is Vertical {
            survivors(old(placement_areas)@, *event)
        } else {
            old(placement_areas)@
        },
{
    match *event {
        DominoPlacementEvent::Vertical {
            column: placed_column,
            bottom_cell_row: placed_row_bottom_cell,
        } => {
            let placed_col: i64 = placed_column as i64;
            let placed_row: i64 = placed_row_bottom_cell as i64;
            let mut kept: Vec<PlacementArea> = Vec::new();
            let mut i: usize = 0;
            while i < placement_areas.len()
                invariant
                    i <= placement_areas.len(),
                    placement_areas@ == old(placement_areas)@,
                    placed_col == placed_column,
                    placed_row == placed_row_bottom_cell,
                    *event == (DominoPlacementEvent::Vertical {
                        bottom_cell_row: placed_row_bottom_cell,
                        column: placed_column,
                    }),
                    kept@ == survivors(placement_areas@.take(i as int), *event),
                decreases placement_areas.len() - i,
            {
                let placement_area: PlacementArea = placement_areas[i];
                let should_remove: bool = match placement_area {
                    PlacementArea::Vertical { bottom_cell_row, column } => {
                        column == placed_column && (bottom_cell_row as i64 == placed_row
                            || bottom_cell_row as i64 == placed_row - 1 || bottom_cell_row as i64
                            == placed_row + 1)
                    },
                    PlacementArea::Horizontal { left_cell_col, row } => {
                        (row as i64 == placed_row && placed_col == left_cell_col as i64) || (
                        row as i64 == placed_row && placed_col - 1 == left_cell_col as i64) || (
                        row as i64 == placed_row + 1 && placed_col == left_cell_col as i64) || (
                        row as i64 == placed_row + 1 && placed_col - 1 == left_cell_col as i64)
                    },
                };
                proof {
                    reveal(Seq::filter);
                    assert(placement_areas@.take(i + 1).drop_last() =~= placement_areas@.take(
                        i as int,
                    ));
                    assert(should_remove == invalidated_by(placement_area, *event));
                }
                if !should_remove {
                    kept.push(placement_area);
                }
                i += 1;
            }
            proof {
                assert(placement_areas@.take(i as int) =~= placement_areas@);
            }
            *placement_areas = kept;
        },
        _ => {},
    }
}

/// What `first_match` finds: an area that accepts the drop and has no
/// accepting area before it, or nothing where no area accepts.
pub proof fn lemma_first_match(areas: Seq<PlacementArea>, horizontal: bool, point: Point)
    ensures
        match first_match(areas, horizontal, point) {
            Some(area) => exists|i: int|
                {
                    &&& 0 <= i < areas.len()
                    &&& areas[i] == area
                    &&& area.accepts(horizontal, point)
                    &&& forall|j: int| 0 <= j < i ==> !(#[trigger] areas[j]).accepts(horizontal, point)
                },
            None => forall|i: int|
                0 <= i < areas.len() ==> !(#[trigger] areas[i]).accepts(horizontal, point),
        },
    decreases areas.len(),
{
    if areas.len() > 0 && !areas[0].accepts(horizontal, point) {
        let rest = areas.skip(1);
        lemma_first_match(rest, horizontal, point);
        match first_match(rest, horizontal, point) {
            Some(area) => {
                let k = choose|k: int|
                    {
                        &&& 0 <= k < rest.len()
                        &&& rest[k] == area
                        &&& area.accepts(horizontal, point)
                        &&& forall|j: int|
                            0 <= j < k ==> !(#[trigger] rest[j]).accepts(horizontal, point)
                    };
                assert forall|j: int| 0 <= j < k + 1 implies !(#[trigger] areas[j]).accepts(
                    horizontal,
                    point,
                ) by {
                    if j > 0 {
                        assert(rest[j - 1] == areas[j]);
                    }
                }
                assert(areas[k + 1] == area);
            },
            None => {
                assert forall|i: int| 0 <= i < areas.len() implies !(#[trigger] areas[i]).accepts(
                    horizontal,
                    point,
                ) by {
                    if i > 0 {
                        assert(rest[i - 1] == areas[i]);
                    }
                }
            },
        }
    } else if areas.len() > 0 {
        assert(areas[0] == areas[0]);
    }
}

/// Orientation gating: the area that a released piece snaps into is one of
/// the live areas, has the orientation of the piece and contains the
/// position of the piece.  A horizontal piece never snaps into a vertical
/// area, nor a vertical piece into a horizontal one.
pub proof fn lemma_orientation_gating(piece: Piece, areas: Seq<PlacementArea>)
    ensures
        drop_target(piece, areas) matches Some(area) ==> {
            &&& areas.contains(area)
            &&& area.is_horizontal() == piece.domino.horizontal
            &&& area.contains(piece.transform.position())
        },
{
    lemma_first_match(areas, piece.domino.horizontal, piece.transform.position());
}

/// Revert correctness: a held piece that is released at a point which no
/// area of its orientation contains stands, after the release, exactly
/// where it was picked up.  It is on the piece layer, is no longer held,
/// and keeps its identity, its orientation and its eligibility for
/// dragging.
pub proof fn lemma_revert_correctness(piece: Piece, areas: Seq<PlacementArea>)
    requires
        piece.dragging is Some,
        forall|i: int|
            0 <= i < areas.len() ==> !(#[trigger] areas[i]).accepts(
                piece.domino.horizontal,
                piece.transform.position(),
            ),
    ensures
        drop_target(piece, areas) is None,
        released(piece, areas).transform.position() == piece.dragging->0.start_location,
        released(piece, areas).transform.z == PIECE_LAYER,
        released(piece, areas).dragging is None,
        released(piece, areas).draggable == piece.draggable,
        released(piece, areas).domino == piece.domino,
{
    lemma_first_match(areas, piece.domino.horizontal, piece.transform.position());
}

/// Snap exactness: a piece released at a point that exactly one live area
/// of its orientation contains ends on that area's anchor, whichever
/// interior point it was: two pieces dropped into the same area end on the
/// same position.  The piece keeps its layer, its rotation and its
/// identity, and can no longer be dragged.
pub proof fn lemma_snap_exactness(
    piece: Piece,
    other: Piece,
    areas: Seq<PlacementArea>,
    area: PlacementArea,
)
    requires
        areas.contains(area),
        area.accepts(piece.domino.horizontal, piece.transform.position()),
        area.accepts(other.domino.horizontal, other.transform.position()),
        forall|i: int|
            0 <= i < areas.len() && (#[trigger] areas[i]).is_horizontal() == area.is_horizontal()
                && (areas[i].contains(piece.transform.position()) || areas[i].contains(
                other.transform.position(),
            )) ==> areas[i] == area,
    ensures
        drop_target(piece, areas) == Some(area),
        (released(piece, areas).transform.x as int, released(piece, areas).transform.y as int)
            == area.anchor(),
        released(piece, areas).transform.position() == released(
            other,
            areas,
        ).transform.position(),
        released(piece, areas).transform.z == piece.transform.z,
        released(piece, areas).transform.rotation == piece.transform.rotation,
        released(piece, areas).domino == piece.domino,
        released(piece, areas).draggable is None,
        released(piece, areas).dragging is None,
{
    lemma_first_match(areas, piece.domino.horizontal, piece.transform.position());
    lemma_first_match(areas, other.domino.horizontal, other.transform.position());
    let i = choose|i: int| 0 <= i < areas.len() && areas[i] == area;
    assert(areas[i].accepts(piece.domino.horizontal, piece.transform.position()));
    assert(areas[i].accepts(other.domino.horizontal, other.transform.position()));
}

/// A placement invalidates exactly the areas that share a cell with the
/// area the piece was placed in.
pub proof fn lemma_invalidated_iff_overlaps(area: PlacementArea, event: DominoPlacementEvent)
    ensures
        invalidated_by(area, event) <==> area.overlaps(event.area()),
{
}

/// Whether `center` is the centre of one of the two cells that the placed
/// piece occupies.
pub open spec fn is_occupied_center(event: DominoPlacementEvent, center: Point) -> bool {
    ||| (center.x as int, center.y as int) == PlacementArea::cell_center(event.area().first_cell())
    ||| (center.x as int, center.y as int) == PlacementArea::cell_center(
        event.area().second_cell(),
    )
}

/// Invalidation completeness: after a placement no remaining area, of
/// either orientation, shares a cell with the placed piece, and every area
/// that shares none remains.  A hit test of the centre of either occupied
/// cell against the remaining areas finds nothing.
pub proof fn lemma_invalidation_completeness(areas: Seq<PlacementArea>, event: DominoPlacementEvent)
    ensures
        forall|area: PlacementArea| #[trigger]
            survivors(areas, event).contains(area) <==> areas.contains(area) && !area.overlaps(
                event.area(),
            ),
        forall|i: int, center: Point|
            0 <= i < survivors(areas, event).len() && is_occupied_center(event, center) ==> !(
            #[trigger] survivors(areas, event)[i].contains(center)),
{
    let keep = |area: PlacementArea| !invalidated_by(area, event);
    let left = survivors(areas, event);
    assert forall|area: PlacementArea| #[trigger]
        left.contains(area) <==> areas.contains(area) && !area.overlaps(event.area()) by {
        lemma_invalidated_iff_overlaps(area, event);
        if left.contains(area) {
            areas.lemma_filter_contains_rev(keep, area);
        }
        if areas.contains(area) && !area.overlaps(event.area()) {
            let i = choose|i: int| 0 <= i < areas.len() && areas[i] == area;
            areas.lemma_filter_contains(keep, i);
        }
    }
    assert forall|i: int, center: Point|
        0 <= i < left.len() && is_occupied_center(event, center) implies !(#[trigger] left[i].contains(
        center,
    )) by {
        if (center.x as int, center.y as int) == PlacementArea::cell_center(
            event.area().first_cell(),
        ) {
            PlacementArea::lemma_cell_center_outside(left[i], event.area().first_cell(), center);
        } else {
            PlacementArea::lemma_cell_center_outside(left[i], event.area().second_cell(), center);
        }
    }
}

/// Monotonic shrink: a placement never adds a placement area.  The areas
/// that remain are areas that were there, in their old order, so their
/// number does not grow.
pub proof fn lemma_monotonic_shrink(areas: Seq<PlacementArea>, event: DominoPlacementEvent)
    ensures
        survivors(areas, event).len() <= areas.len(),
        forall|i: int|
            0 <= i < survivors(areas, event).len() ==> areas.contains(
                #[trigger] survivors(areas, event)[i],
            ),
{
    let keep = |area: PlacementArea| !invalidated_by(area, event);
    areas.lemma_filter_len(keep);
    assert forall|i: int| 0 <= i < survivors(areas, event).len() implies areas.contains(
        #[trigger] survivors(areas, event)[i],
    ) by {
        let area = survivors(areas, event)[i];
        assert(survivors(areas, event).contains(area));
        areas.lemma_filter_contains_rev(keep, area);
    }
}

} // verus!

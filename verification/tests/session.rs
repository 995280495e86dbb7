use protodominoes::helpers::dragging::{Draggable, IsDragging};
use protodominoes::helpers::transform::{world_to_transform, Point, Rotation, Transform, TILE_SIZE};
use protodominoes::state::{AppState, GameState, MenuState};
use protodominoes::systems::assets::{
    AssetHandle, DominoesAssetInfo, ImageAsset, LoadedAssets, LoadedImages, Sprite, TextureAtlas,
};
use protodominoes::systems::cursor::{update_cursor_world_pos, CursorWorldCoords};
use protodominoes::systems::domino_grid::components::{
    Domino, DominoColor, DominoType, GridSquare, Piece, PlacementArea,
};
use protodominoes::systems::domino_grid::dispatch::{dispatch, drain, resolve_release, InputEvent};
use protodominoes::systems::domino_grid::events::{DominoPlacementEvent, DragEndEvent, PieceId};
use protodominoes::systems::domino_grid::systems::{
    debug_draw_placement_areas, handle_dragging, init, init_grid, on_domino_spawn,
    on_draggable_spawn, on_grid_square_spawn, on_pointer_down, on_pointer_drag,
    on_pointer_drag_end, reset, restart, Hitbox, HitboxColor,
};
use protodominoes::systems::{go_to_in_game, init_camera, init_resources};

fn loaded_assets() -> LoadedAssets {
    LoadedAssets {
        images: LoadedImages {
            ground: ImageAsset { image: AssetHandle { id: 1 }, atlas: None },
            dominoes: DominoesAssetInfo {
                image_asset: ImageAsset {
                    image: AssetHandle { id: 2 },
                    atlas: Some(AssetHandle { id: 9 }),
                },
            },
            grid_square: ImageAsset { image: AssetHandle { id: 3 }, atlas: None },
        },
    }
}

fn fresh_session() -> (Vec<Piece>, Vec<GridSquare>, Vec<PlacementArea>) {
    let mut pieces: Vec<Piece> = Vec::new();
    let mut squares: Vec<GridSquare> = Vec::new();
    let mut areas: Vec<PlacementArea> = Vec::new();
    init(&mut pieces);
    init_grid(&mut squares, &mut areas);
    (pieces, squares, areas)
}

#[test]
fn tile_coordinates_are_scaled_by_the_tile_size() {
    assert_eq!(TILE_SIZE, 32);
    assert_eq!(
        world_to_transform(3, -2, 7),
        Transform { x: 96, y: -64, z: 7, rotation: Rotation::Deg0 }
    );
    assert_eq!(
        world_to_transform(i32::MAX, i32::MIN, i64::MIN),
        Transform {
            x: 32 * (i32::MAX as i64),
            y: 32 * (i32::MIN as i64),
            z: i64::MIN,
            rotation: Rotation::Deg0
        }
    );
    assert_eq!(init_camera(), Transform { x: 256, y: 192, z: 1000, rotation: Rotation::Deg0 });
}

#[test]
fn four_quarter_turns_make_a_full_turn() {
    assert_eq!(Rotation::Deg0.quarter_turn(), Rotation::Deg90);
    assert_eq!(Rotation::Deg90.quarter_turn(), Rotation::Deg180);
    assert_eq!(Rotation::Deg180.quarter_turn(), Rotation::Deg270);
    assert_eq!(Rotation::Deg270.quarter_turn(), Rotation::Deg0);
}

#[test]
fn states_start_at_their_first_variant() {
    assert_eq!(AppState::default(), AppState::Loading);
    assert_eq!(MenuState::default(), MenuState::MainMenu);
    assert_eq!(GameState::default(), GameState::Build);
    assert_eq!(go_to_in_game(), MenuState::InGame);
}

#[test]
fn resources_start_empty() {
    let (loaded, loading) = init_resources();
    assert_eq!(loaded, LoadedAssets::default());
    assert_eq!(loaded.images.ground, ImageAsset { image: AssetHandle { id: 0 }, atlas: None });
    assert_eq!(loaded.images.dominoes.image_asset, loaded.images.ground);
    assert_eq!(loaded.images.grid_square, loaded.images.ground);
    assert!(loading.0.is_empty());
}

#[test]
fn cursor_keeps_its_last_known_position() {
    let mut coords = CursorWorldCoords::default();
    assert_eq!(coords.0, Point { x: 0, y: 0 });
    update_cursor_world_pos(&mut coords, Some(Point { x: 12, y: -7 }));
    assert_eq!(coords.0, Point { x: 12, y: -7 });
    update_cursor_world_pos(&mut coords, None);
    assert_eq!(coords.0, Point { x: 12, y: -7 });
}

#[test]
fn pool_has_one_piece_of_each_variant() {
    let mut pieces: Vec<Piece> = Vec::new();
    init(&mut pieces);
    assert_eq!(pieces.len(), 16);
    let kinds = DominoType::all_types();
    assert_eq!(kinds.len(), 16);
    for (index, piece) in pieces.iter().enumerate() {
        let column = (index % 8) as i64;
        let row = (index / 8) as i64;
        assert_eq!(
            *piece,
            Piece {
                domino: Domino { d_type: kinds[index], horizontal: true },
                transform: Transform {
                    x: 32 * (-4 + 3 * column),
                    y: 32 * (12 + 2 * row),
                    z: 1,
                    rotation: Rotation::Deg0,
                },
                draggable: Some(Draggable),
                dragging: None,
                sprite: None,
                observed: false,
            }
        );
    }
    assert_eq!(pieces[0].transform.truncate(), Point { x: -128, y: 384 });
    assert_eq!(pieces[15].transform.truncate(), Point { x: 544, y: 448 });
    assert_eq!(kinds[0], DominoType::Blue(DominoColor::Blue));
    assert_eq!(kinds[3], DominoType::Blue(DominoColor::Red));
    assert_eq!(kinds[4], DominoType::Green(DominoColor::Green));
    assert_eq!(kinds[11], DominoType::Red(DominoColor::Yellow));
    assert_eq!(kinds[15], DominoType::Yellow(DominoColor::Red));
    for i in 0..16 {
        for j in 0..i {
            assert_ne!(kinds[i], kinds[j]);
        }
    }
}

#[test]
fn init_adds_to_what_is_there() {
    let mut pieces: Vec<Piece> = Vec::new();
    init(&mut pieces);
    let first = pieces.clone();
    init(&mut pieces);
    assert_eq!(pieces.len(), 32);
    assert_eq!(pieces[..16], first[..]);
    assert_eq!(pieces[16..], first[..]);
}

#[test]
fn fresh_grid_has_ninety_areas_of_each_orientation() {
    let (_, squares, areas) = fresh_session();
    assert_eq!(squares.len(), 100);
    assert_eq!(areas.len(), 180);
    let horizontal =
        areas.iter().filter(|area| matches!(area, PlacementArea::Horizontal { .. })).count();
    assert_eq!(horizontal, 90);
    for col in 0..10 {
        for row in 0..10 {
            assert_eq!(
                areas.contains(&PlacementArea::Horizontal { left_cell_col: col, row }),
                col < 9
            );
            assert_eq!(
                areas.contains(&PlacementArea::Vertical { bottom_cell_row: row, column: col }),
                row < 9
            );
            assert_eq!(
                squares[(col * 10 + row) as usize],
                GridSquare {
                    transform: Transform {
                        x: 32 * col as i64,
                        y: 32 * row as i64,
                        z: 0,
                        rotation: Rotation::Deg0
                    },
                    sprite: None,
                }
            );
        }
    }
    assert_eq!(areas[0], PlacementArea::Horizontal { left_cell_col: 0, row: 0 });
    assert_eq!(areas[1], PlacementArea::Vertical { bottom_cell_row: 0, column: 0 });
    assert_eq!(areas[18], PlacementArea::Horizontal { left_cell_col: 0, row: 9 });
    assert_eq!(areas[19], PlacementArea::Horizontal { left_cell_col: 1, row: 0 });
    assert_eq!(areas[179], PlacementArea::Vertical { bottom_cell_row: 8, column: 9 });
}

#[test]
fn reset_destroys_pieces_and_areas() {
    let (mut pieces, squares, mut areas) = fresh_session();
    reset(&mut pieces, &mut areas);
    assert!(pieces.is_empty());
    assert!(areas.is_empty());
    assert_eq!(squares.len(), 100);
}

#[test]
fn restart_from_mid_game_equals_a_fresh_session() {
    let (fresh_pieces, fresh_squares, fresh_areas) = fresh_session();
    let (mut pieces, mut squares, mut areas) = fresh_session();
    on_draggable_spawn(&mut pieces);
    on_domino_spawn(&mut pieces, &loaded_assets());
    let events = vec![
        InputEvent::PointerDown { target: PieceId(2) },
        InputEvent::PointerDrag { target: PieceId(2), cursor: Point { x: 150, y: 100 } },
        InputEvent::PointerUp { target: PieceId(2) },
        InputEvent::PointerDown { target: PieceId(5) },
        InputEvent::Rotate,
    ];
    let placements = drain(&events, &mut pieces, &mut areas);
    assert_eq!(placements.len(), 1);
    assert_ne!(pieces, fresh_pieces);
    assert_ne!(areas, fresh_areas);

    restart(&mut pieces, &mut squares, &mut areas);
    assert_eq!(pieces, fresh_pieces);
    assert_eq!(areas, fresh_areas);
    assert_eq!(squares.len(), 200);
    assert_eq!(squares[100..], fresh_squares[..]);

    restart(&mut pieces, &mut squares, &mut areas);
    assert_eq!(pieces, fresh_pieces);
    assert_eq!(areas, fresh_areas);
}

#[test]
fn squares_get_the_grid_square_image() {
    let (_, mut squares, _) = fresh_session();
    let kept = Sprite { image: AssetHandle { id: 77 }, texture_atlas: None, flip_x: true };
    squares[4].sprite = Some(kept);
    on_grid_square_spawn(&mut squares, &loaded_assets());
    for (k, square) in squares.iter().enumerate() {
        if k == 4 {
            assert_eq!(square.sprite, Some(kept));
        } else {
            assert_eq!(
                square.sprite,
                Some(Sprite { image: AssetHandle { id: 3 }, texture_atlas: None, flip_x: false })
            );
        }
    }
    assert_eq!(squares[4].transform, Transform { x: 0, y: 128, z: 0, rotation: Rotation::Deg0 });
}

#[test]
fn pieces_get_the_sprite_of_their_kind() {
    let (mut pieces, _, _) = fresh_session();
    on_domino_spawn(&mut pieces, &loaded_assets());
    // Piece 5 is green with blue: the atlas draws blue with green in cell 5.
    assert_eq!(
        pieces[5].sprite,
        Some(Sprite {
            image: AssetHandle { id: 2 },
            texture_atlas: Some(TextureAtlas { layout: AssetHandle { id: 9 }, index: 5 }),
            flip_x: true,
        })
    );
    assert_eq!(
        pieces[1].sprite,
        Some(Sprite {
            image: AssetHandle { id: 2 },
            texture_atlas: Some(TextureAtlas { layout: AssetHandle { id: 9 }, index: 5 }),
            flip_x: false,
        })
    );
    let dressed = pieces.clone();
    on_domino_spawn(&mut pieces, &LoadedAssets::default());
    assert_eq!(pieces, dressed);
}

#[test]
fn pointer_events_reach_only_observed_draggable_pieces() {
    let (mut pieces, _, _) = fresh_session();
    let before = pieces.clone();
    on_pointer_down(&mut pieces, PieceId(3));
    assert_eq!(pieces, before);
    assert_eq!(on_pointer_drag_end(&pieces, PieceId(3)), None);

    on_draggable_spawn(&mut pieces);
    assert!(pieces.iter().all(|piece| piece.observed));
    on_pointer_down(&mut pieces, PieceId(16));
    on_pointer_down(&mut pieces, PieceId(3));
    assert_eq!(
        pieces[3].dragging,
        Some(IsDragging { start_location: Point { x: 160, y: 384 } })
    );
    assert_eq!(
        on_pointer_drag_end(&pieces, PieceId(3)),
        Some(DragEndEvent { draggable: PieceId(3) })
    );
    assert_eq!(on_pointer_drag_end(&pieces, PieceId(16)), None);

    let mut placed = pieces.clone();
    placed[3].draggable = None;
    placed[3].dragging = None;
    let frozen = placed.clone();
    on_pointer_down(&mut placed, PieceId(3));
    on_pointer_drag(&mut placed, PieceId(3), &CursorWorldCoords(Point { x: 1, y: 1 }));
    assert_eq!(placed, frozen);
    assert_eq!(on_pointer_drag_end(&placed, PieceId(3)), None);
    on_draggable_spawn(&mut placed);
    assert_eq!(placed, frozen);
}

#[test]
fn drag_moves_only_a_held_piece() {
    let (mut pieces, _, _) = fresh_session();
    on_draggable_spawn(&mut pieces);
    let idle = pieces.clone();
    on_pointer_drag(&mut pieces, PieceId(0), &CursorWorldCoords(Point { x: 40, y: 41 }));
    assert_eq!(pieces, idle);
    on_pointer_down(&mut pieces, PieceId(0));
    on_pointer_drag(&mut pieces, PieceId(0), &CursorWorldCoords(Point { x: 40, y: 41 }));
    assert_eq!(
        pieces[0].transform,
        Transform { x: 40, y: 41, z: 1, rotation: Rotation::Deg0 }
    );
    assert_eq!(
        pieces[0].dragging,
        Some(IsDragging { start_location: Point { x: -128, y: 384 } })
    );
    assert_eq!(pieces[1..], idle[1..]);
}

#[test]
fn rotation_turns_only_held_pieces() {
    let (mut pieces, _, _) = fresh_session();
    on_draggable_spawn(&mut pieces);
    on_pointer_down(&mut pieces, PieceId(6));
    let held = pieces.clone();
    handle_dragging(&mut pieces, false);
    assert_eq!(pieces, held);
    handle_dragging(&mut pieces, true);
    for (k, piece) in pieces.iter().enumerate() {
        if k == 6 {
            assert_eq!(piece.domino, Domino { d_type: held[6].domino.d_type, horizontal: false });
            assert_eq!(piece.transform.rotation, Rotation::Deg90);
            assert_eq!(piece.transform.truncate(), held[6].transform.truncate());
            assert_eq!(piece.dragging, held[6].dragging);
            assert_eq!(piece.draggable, Some(Draggable));
        } else {
            assert_eq!(*piece, held[k]);
        }
    }
    handle_dragging(&mut pieces, true);
    assert!(pieces[6].domino.horizontal);
    assert_eq!(pieces[6].transform.rotation, Rotation::Deg180);
}

#[test]
fn debug_overlay_lists_one_box_for_each_area() {
    let areas = vec![
        PlacementArea::Horizontal { left_cell_col: 4, row: 3 },
        PlacementArea::Vertical { bottom_cell_row: 3, column: 4 },
    ];
    assert_eq!(
        debug_draw_placement_areas(&areas),
        vec![
            Hitbox {
                center: Point { x: 144, y: 96 },
                width: 32,
                height: 32,
                color: HitboxColor::Red
            },
            Hitbox {
                center: Point { x: 128, y: 112 },
                width: 32,
                height: 32,
                color: HitboxColor::Green
            },
        ]
    );
    assert!(debug_draw_placement_areas(&Vec::new()).is_empty());
}

#[test]
fn release_prunes_before_the_next_release_is_resolved() {
    let (mut pieces, _, mut areas) = fresh_session();
    on_draggable_spawn(&mut pieces);
    // Two pieces are held over slots that share the cell (5, 3).
    let events = vec![
        InputEvent::PointerDown { target: PieceId(0) },
        InputEvent::PointerDrag { target: PieceId(0), cursor: Point { x: 150, y: 100 } },
        InputEvent::PointerDown { target: PieceId(1) },
        InputEvent::PointerDrag { target: PieceId(1), cursor: Point { x: 180, y: 100 } },
        InputEvent::PointerUp { target: PieceId(0) },
        InputEvent::PointerUp { target: PieceId(1) },
    ];
    let placements = drain(&events, &mut pieces, &mut areas);
    assert_eq!(placements, vec![DominoPlacementEvent::Horizontal { left_cell_col: 4, row: 3 }]);
    assert_eq!(pieces[0].transform.truncate(), Point { x: 144, y: 96 });
    assert_eq!(pieces[0].draggable, None);
    assert_eq!(pieces[1].transform.truncate(), Point { x: -32, y: 384 });
    assert_eq!(pieces[1].draggable, Some(Draggable));
    assert_eq!(pieces[1].dragging, None);
    assert_eq!(areas.len(), 173);
}

#[test]
fn rotated_piece_snaps_into_a_vertical_slot() {
    let (mut pieces, _, mut areas) = fresh_session();
    on_draggable_spawn(&mut pieces);
    let target = PieceId(9);
    assert_eq!(dispatch(&InputEvent::PointerDown { target }, &mut pieces, &mut areas), None);
    assert_eq!(dispatch(&InputEvent::Rotate, &mut pieces, &mut areas), None);
    assert_eq!(
        dispatch(
            &InputEvent::PointerDrag { target, cursor: Point { x: 1, y: 17 } },
            &mut pieces,
            &mut areas
        ),
        None
    );
    assert_eq!(areas.len(), 180);
    assert_eq!(
        dispatch(&InputEvent::PointerUp { target }, &mut pieces, &mut areas),
        Some(DominoPlacementEvent::Vertical { bottom_cell_row: 0, column: 0 })
    );
    assert_eq!(
        pieces[9],
        Piece {
            domino: Domino { d_type: DominoType::Red(DominoColor::Blue), horizontal: false },
            transform: Transform { x: 0, y: 16, z: 1, rotation: Rotation::Deg90 },
            draggable: None,
            dragging: None,
            sprite: None,
            observed: true,
        }
    );
    // Vertical (0,0) and (1,0) in column 0, horizontal (0,0) and (0,1).
    assert_eq!(areas.len(), 176);
    let frozen = pieces.clone();
    let more = vec![
        InputEvent::PointerDown { target },
        InputEvent::PointerDrag { target, cursor: Point { x: 300, y: 300 } },
        InputEvent::Rotate,
        InputEvent::PointerUp { target },
    ];
    assert!(drain(&more, &mut pieces, &mut areas).is_empty());
    assert_eq!(pieces, frozen);
    assert_eq!(areas.len(), 176);
}

#[test]
fn resolve_release_reverts_and_keeps_the_areas() {
    let (mut pieces, _, mut areas) = fresh_session();
    on_draggable_spawn(&mut pieces);
    on_pointer_down(&mut pieces, PieceId(4));
    on_pointer_drag(&mut pieces, PieceId(4), &CursorWorldCoords(Point { x: 160, y: 100 }));
    let placed = resolve_release(&DragEndEvent { draggable: PieceId(4) }, &mut pieces, &mut areas);
    assert_eq!(placed, None);
    assert_eq!(areas.len(), 180);
    assert_eq!(pieces[4].transform.truncate(), Point { x: 256, y: 384 });
    assert_eq!(pieces[4].dragging, None);
}

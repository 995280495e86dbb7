use vstd::prelude::*;
use crate::helpers::transform::Point;
use crate::systems::cursor::CursorWorldCoords;
use crate::systems::domino_grid::components::{DragPhase, Piece, PlacementArea};
use crate::systems::domino_grid::events::{DominoPlacementEvent, DragEndEvent, PieceId};
use crate::systems::domino_grid::systems::{
    after_pointer_down, after_pointer_drag, after_rotate, drop_target, handle_drag_end,
    handle_dragging, handle_horizontal_domino_placed, handle_vertical_domino_placed, is_held,
    lemma_invalidation_completeness, lemma_monotonic_shrink, lemma_orientation_gating, on_pointer_down, on_pointer_drag, on_pointer_drag_end, placement_of,
    reaches, released, survivors,
};

verus! {

/// One input signal.  The signals of a tick are queued and handled one
/// after the other, in the order in which they arrived.
#[derive(Clone, Copy, Debug, PartialEq, Eq, Structural)]
pub enum InputEvent {
    /// The pointer was pressed on a piece.
    PointerDown { target: PieceId },
    /// The pointer moved while it was pressed on a piece; `cursor` is where
    /// it is now, in the world plane.
    PointerDrag { target: PieceId, cursor: Point },
    /// The pointer was released from a piece.
    PointerUp { target: PieceId },
    /// The rotate action was pressed.
    Rotate,
}

/// The state that placement works on: the piece arena and the live
/// placement areas, in storage order.
pub struct Board {
    pub pieces: Seq<Piece>,
    pub placement_areas: Seq<PlacementArea>,
}

/// The board made of the given pieces and areas.
pub open spec fn board_of(pieces: Seq<Piece>, placement_areas: Seq<PlacementArea>) -> Board {
    Board { pieces, placement_areas }
}

/// The placement that the release reports, if the piece snaps.
pub open spec fn placement_after_release(board: Board, event: DragEndEvent) -> Option<
    DominoPlacementEvent,
> {
    if is_held(board.pieces, event.draggable) {
        match drop_target(board.pieces[event.draggable.0 as int], board.placement_areas) {
            Some(area) => Some(placement_of(area)),
            None => None,
        }
    } else {
        None
    }
}

/// The board after one release has been resolved in full: the piece has
/// snapped or returned, and where it has snapped the areas that it
/// invalidates are gone.
pub open spec fn after_release(board: Board, event: DragEndEvent) -> Board {
    if is_held(board.pieces, event.draggable) {
        Board {
            pieces: board.pieces.update(
                event.draggable.0 as int,
                released(board.pieces[event.draggable.0 as int], board.placement_areas),
            ),
            placement_areas: match placement_after_release(board, event) {
                Some(placement) => survivors(board.placement_areas, placement),
                None => board.placement_areas,
            },
        }
    } else {
        board
    }
}

/// The placement that one input signal leads to, if any.
pub open spec fn placement_after_input(board: Board, event: InputEvent) -> Option<
    DominoPlacementEvent,
> {
    match event {
        InputEvent::PointerUp { target } => if reaches(board.pieces, target) {
            placement_after_release(board, DragEndEvent { draggable: target })
        } else {
            None
        },
        _ => None,
    }
}

/// The board after one input signal.
pub open spec fn after_input(board: Board, event: InputEvent) -> Board {
    match event {
        InputEvent::PointerDown { target } => Board {
            pieces: after_pointer_down(board.pieces, target),
            ..board
        },
        InputEvent::PointerDrag { target, cursor } => Board {
            pieces: after_pointer_drag(board.pieces, target, cursor),
            ..board
        },
        InputEvent::PointerUp { target } => if reaches(board.pieces, target) {
            after_release(board, DragEndEvent { draggable: target })
        } else {
            board
        },
        InputEvent::Rotate => Board { pieces: after_rotate(board.pieces), ..board },
    }
}

/// The board after the signals of `events`, handled in order.
pub open spec fn after_inputs(board: Board, events: Seq<InputEvent>) -> Board
    decreases events.len(),
{
    if events.len() == 0 {
        board
    } else {
        after_input(after_inputs(board, events.drop_last()), events.last())
    }
}

/// The placements that the signals of `events` lead to, in order.
pub open spec fn placements_after_inputs(board: Board, events: Seq<InputEvent>) -> Seq<
    DominoPlacementEvent,
>
    decreases events.len(),
{
    if events.len() == 0 {
        Seq::empty()
    } else {
        let earlier = placements_after_inputs(board, events.drop_last());
        match placement_after_input(after_inputs(board, events.drop_last()), events.last()) {
            Some(placement) => earlier.push(placement),
            None => earlier,
        }
    }
}

/// Resolves one release in full: the piece snaps or returns, and where it
/// has snapped the placement areas are pruned before anything else can be
/// resolved against them.
pub fn resolve_release(
    event: &DragEndEvent,
    pieces: &mut Vec<Piece>,
    placement_areas: &mut Vec<PlacementArea>,
) -> (placed: Option<DominoPlacementEvent>)
    ensures
        board_of(final(pieces)@, final(placement_areas)@) == after_release(
            board_of(old(pieces)@, old(placement_areas)@),
            *event,
        ),
        placed == placement_after_release(board_of(old(pieces)@, old(placement_areas)@), *event),
{
    let placed: Option<DominoPlacementEvent> = handle_drag_end(event, placement_areas, pieces);
    if let Some(placement) = placed {
        handle_horizontal_domino_placed(&placement, placement_areas);
        handle_vertical_domino_placed(&placement, placement_areas);
    }
    placed
}

/// Handles one input signal: a press picks a piece up, a drag moves it, a
/// release is resolved in full, and the rotate action turns what is held.
/// A signal for a piece that does not exist, is placed or is not observed
/// changes nothing.
pub fn dispatch(
    event: &InputEvent,
    pieces: &mut Vec<Piece>,
    placement_areas: &mut Vec<PlacementArea>,
) -> (placed: Option<DominoPlacementEvent>)
    ensures
        board_of(final(pieces)@, final(placement_areas)@) == after_input(
            board_of(old(pieces)@, old(placement_areas)@),
            *event,
        ),
        placed == placement_after_input(board_of(old(pieces)@, old(placement_areas)@), *event),
{
    match *event {
        InputEvent::PointerDown { target } => {
            on_pointer_down(pieces, target);
            None
        },
        InputEvent::PointerDrag { target, cursor } => {
            on_pointer_drag(pieces, target, &CursorWorldCoords(cursor));
            None
        },
        InputEvent::PointerUp { target } => {
            match on_pointer_drag_end(pieces, target) {
                Some(drag_end) => resolve_release(&drag_end, pieces, placement_areas),
                None => None,
            }
        },
        InputEvent::Rotate => {
            handle_dragging(pieces, true);
            None
        },
    }
}

/// Drains the queue of a tick: the signals are handled one after the other
/// in arrival order, each to its end before the next begins.  The
/// placements that took place are returned in order.
pub fn drain(
    events: &Vec<InputEvent>,
    pieces: &mut Vec<Piece>,
    placement_areas: &mut Vec<PlacementArea>,
) -> (placements: Vec<DominoPlacementEvent>)
    ensures
        board_of(final(pieces)@, final(placement_areas)@) == after_inputs(
            board_of(old(pieces)@, old(placement_areas)@),
            events@,
        ),
        placements@ == placements_after_inputs(
            board_of(old(pieces)@, old(placement_areas)@),
            events@,
        ),
{
    let ghost start = board_of(pieces@, placement_areas@);
    let mut placements: Vec<DominoPlacementEvent> = Vec::new();
    let mut i: usize = 0;
    while i < events.len()
        invariant
            i <= events.len(),
            start == board_of(old(pieces)@, old(placement_areas)@),
            board_of(pieces@, placement_areas@) == after_inputs(start, events@.take(i as int)),
            placements@ == placements_after_inputs(start, events@.take(i as int)),
        decreases events.len() - i,
    {
        proof {
            assert(events@.take(i + 1).drop_last() =~= events@.take(i as int));
        }
        let placed: Option<DominoPlacementEvent> = dispatch(&events[i], pieces, placement_areas);
        if let Some(placement) = placed {
            placements.push(placement);
        }
        i += 1;
    }
    proof {
        assert(events@.take(i as int) =~= events@);
    }
    placements
}

/// Whether no piece of the board is held without being draggable.
pub open spec fn well_formed(board: Board) -> bool {
    forall|i: int| 0 <= i < board.pieces.len() ==> (#[trigger] board.pieces[i]).well_formed()
}

/// What one input signal can and cannot do.  The arena keeps its size and
/// every piece its kind; a piece changes its orientation only while it is
/// held; a held piece stays draggable; a placed piece is never touched
/// again.  The placement areas only shrink: their number does not grow,
/// and each one that is left was there before.
pub proof fn lemma_input_step(board: Board, event: InputEvent, i: int)
    requires
        0 <= i < board.pieces.len(),
    ensures
        after_input(board, event).pieces.len() == board.pieces.len(),
        after_input(board, event).pieces[i].domino.d_type == board.pieces[i].domino.d_type,
        board.pieces[i].dragging is None ==> after_input(board, event).pieces[i].domino.horizontal
            == board.pieces[i].domino.horizontal,
        board.pieces[i].well_formed() ==> after_input(board, event).pieces[i].well_formed(),
        board.pieces[i].well_formed() && board.pieces[i].phase() == DragPhase::Placed
            ==> after_input(board, event).pieces[i] == board.pieces[i],
        after_input(board, event).placement_areas.len() <= board.placement_areas.len(),
        forall|k: int|
            0 <= k < after_input(board, event).placement_areas.len()
                ==> board.placement_areas.contains(
                #[trigger] after_input(board, event).placement_areas[k],
            ),
{
    lemma_areas_step(board, event);
}

/// What a whole queue of input signals can and cannot do: the same as one
/// signal.  The arena keeps its size and every piece its kind, a
/// well-formed board stays well-formed, a placed piece stays as it is, and
/// the placement areas only shrink.
pub proof fn lemma_input_queue(board: Board, events: Seq<InputEvent>)
    requires
        well_formed(board),
    ensures
        after_inputs(board, events).pieces.len() == board.pieces.len(),
        well_formed(after_inputs(board, events)),
        forall|i: int|
            0 <= i < board.pieces.len() ==> (#[trigger] after_inputs(
                board,
                events,
            ).pieces[i]).domino.d_type == board.pieces[i].domino.d_type,
        forall|i: int|
            0 <= i < board.pieces.len() && board.pieces[i].phase() == DragPhase::Placed
                ==> #[trigger] after_inputs(board, events).pieces[i] == board.pieces[i],
        after_inputs(board, events).placement_areas.len() <= board.placement_areas.len(),
        forall|k: int|
            0 <= k < after_inputs(board, events).placement_areas.len()
                ==> board.placement_areas.contains(
                #[trigger] after_inputs(board, events).placement_areas[k],
            ),
    decreases events.len(),
{
    if events.len() == 0 {
        assert forall|k: int| 0 <= k < board.placement_areas.len() implies
            board.placement_areas.contains(#[trigger] board.placement_areas[k]) by {}
    } else {
        let before = after_inputs(board, events.drop_last());
        let after = after_inputs(board, events);
        lemma_input_queue(board, events.drop_last());
        assert forall|i: int| 0 <= i < board.pieces.len() implies {
            &&& (#[trigger] after.pieces[i]).well_formed()
            &&& after.pieces[i].domino.d_type == board.pieces[i].domino.d_type
            &&& board.pieces[i].phase() == DragPhase::Placed ==> after.pieces[i] == board.pieces[i]
        } by {
            lemma_input_step(before, events.last(), i);
            assert(before.pieces[i].well_formed());
        }
        if board.pieces.len() > 0 {
            lemma_input_step(before, events.last(), 0);
        }
        assert(after.pieces.len() == board.pieces.len());
        assert(after.placement_areas.len() <= board.placement_areas.len() && forall|k: int|
            0 <= k < after.placement_areas.len() ==> board.placement_areas.contains(
                #[trigger] after.placement_areas[k],
            )) by {
            lemma_areas_step(before, events.last());
            assert forall|k: int| 0 <= k < after.placement_areas.len() implies
                board.placement_areas.contains(#[trigger] after.placement_areas[k]) by {
                let area = after.placement_areas[k];
                assert(before.placement_areas.contains(area));
                let j = choose|j: int|
                    0 <= j < before.placement_areas.len() && before.placement_areas[j] == area;
                assert(board.placement_areas.contains(before.placement_areas[j]));
            }
        }
    }
}

proof fn lemma_areas_step(board: Board, event: InputEvent)
    ensures
        after_input(board, event).pieces.len() == board.pieces.len(),
        after_input(board, event).placement_areas.len() <= board.placement_areas.len(),
        forall|k: int|
            0 <= k < after_input(board, event).placement_areas.len()
                ==> board.placement_areas.contains(
                #[trigger] after_input(board, event).placement_areas[k],
            ),
{
    match placement_after_input(board, event) {
        Some(placement) => {
            lemma_monotonic_shrink(board.placement_areas, placement);
        },
        None => {
            assert forall|k: int| 0 <= k < board.placement_areas.len() implies
                board.placement_areas.contains(#[trigger] board.placement_areas[k]) by {}
        },
    }
}

/// Whether no area of `areas` shares a cell with any of the `occupied`
/// slots.
pub open spec fn clear_of(areas: Seq<PlacementArea>, occupied: Seq<PlacementArea>) -> bool {
    forall|i: int, j: int|
        0 <= i < areas.len() && 0 <= j < occupied.len() ==> !(#[trigger] areas[i]).overlaps(
            #[trigger] occupied[j],
        )
}

/// Placed pieces never overlap.  As long as no live area shares a cell
/// with a slot that a piece occupies, a piece that snaps takes a slot that
/// is clear of all occupied ones, and afterwards no live area shares a cell
/// with any occupied slot, the new one included.
pub proof fn lemma_placed_pieces_never_overlap(
    board: Board,
    event: InputEvent,
    occupied: Seq<PlacementArea>,
)
    requires
        clear_of(board.placement_areas, occupied),
    ensures
        match placement_after_input(board, event) {
            Some(placement) => {
                &&& forall|j: int|
                    0 <= j < occupied.len() ==> !placement.area().overlaps(#[trigger] occupied[j])
                &&& clear_of(
                    after_input(board, event).placement_areas,
                    occupied.push(placement.area()),
                )
            },
            None => clear_of(after_input(board, event).placement_areas, occupied),
        },
{
    lemma_areas_step(board, event);
    let next = after_input(board, event).placement_areas;
    assert forall|i: int, j: int| 0 <= i < next.len() && 0 <= j < occupied.len() implies !(
    #[trigger] next[i]).overlaps(#[trigger] occupied[j]) by {
        let k = choose|k: int|
            0 <= k < board.placement_areas.len() && board.placement_areas[k] == next[i];
        assert(!board.placement_areas[k].overlaps(occupied[j]));
    }
    match placement_after_input(board, event) {
        Some(placement) => {
            let target = event->PointerUp_target;
            let piece = board.pieces[target.0 as int];
            lemma_orientation_gating(piece, board.placement_areas);
            lemma_invalidation_completeness(board.placement_areas, placement);
            let taken = placement.area();
            let k = choose|k: int|
                0 <= k < board.placement_areas.len() && board.placement_areas[k] == taken;
            assert forall|j: int| 0 <= j < occupied.len() implies !taken.overlaps(
                #[trigger] occupied[j],
            ) by {
                assert(!board.placement_areas[k].overlaps(occupied[j]));
            }
            let all = occupied.push(taken);
            assert forall|i: int, j: int| 0 <= i < next.len() && 0 <= j < all.len() implies !(
            #[trigger] next[i]).overlaps(#[trigger] all[j]) by {
                if j == occupied.len() {
                    assert(next.contains(next[i]));
                } else {
                    assert(all[j] == occupied[j]);
                }
            }
        },
        None => {},
    }
}

} // verus!

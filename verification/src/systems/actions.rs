use vstd::prelude::*;

verus! {

/// The discrete actions a player can take on a held piece.
#[derive(Clone, Copy, Debug, PartialEq, Eq, Hash, Structural)]
pub enum DominoControlAction {
    /// Turn the held piece by a quarter turn.
    Rotate,
}

} // verus!

//! Error values returned by the board engine when a move is rejected.

use vstd::prelude::*;

verus! {

/// Why the engine refused a `play` or `toggle_mark` request.
#[derive(Clone, Copy, Debug, PartialEq, Eq, Structural)]
pub enum BoardError {
    /// The coordinates fall outside the board.
    InvalidMove,
    /// The target cell has already been revealed.
    MoveAlreadyPlayed,
    /// A reveal was attempted on a flagged cell.
    MoveAlreadyMarked,
    /// A flag was toggled before the first reveal placed the mines.
    GameNotInitialized,
}

} // verus!

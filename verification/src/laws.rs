//! Game-level laws of the board engine, proved once and for all from the
//! contracts of `play`, `toggle_mark` and the board invariant.

use vstd::prelude::*;

use crate::board::MinesWeeper;
use crate::board::adjacent_mines;
use crate::board::all_false;
use crate::board::all_safe_revealed;
use crate::board::count_mines;
use crate::board::lemma_count_true_none;
use crate::board::lemma_idx_bounds;
use crate::board::reveal_transition;
use crate::board::toggle_transition;
use crate::board::MINE;
use crate::errors::BoardError;

verus! {

/// A freshly constructed board has no flags, so `mines_left` reports the
/// whole mine budget.
pub proof fn lemma_mines_left_after_new(b: MinesWeeper)
    requires
        b.wf(),
        !b.initialized,
    ensures
        b.mines_left_spec() == b.mines,
{
    lemma_count_true_none(b.marked_board@);
}

/// The first successful reveal at 0-based `(x0, y0)` leaves exactly the
/// budgeted number of mines on the board, and none of them under the
/// revealed cell.
pub proof fn lemma_first_reveal_places_mines(
    pre: MinesWeeper,
    post: MinesWeeper,
    x0: int,
    y0: int,
)
    requires
        !pre.initialized,
        reveal_transition(pre, post, x0, y0),
    ensures
        count_mines(post.board@) == pre.mines,
        !post.mine_at(x0, y0),
{
}

/// On an initialized board, every non-mine cell stores exactly the number
/// of its grid neighbors that are mines.
pub proof fn lemma_adjacency_exact(b: MinesWeeper, x: int, y: int)
    requires
        b.wf(),
        b.initialized,
        b.in_bounds(x, y),
        !b.mine_at(x, y),
    ensures
        b.cell(x, y) == adjacent_mines(b.board@, b.width as int, b.height as int, x, y),
{
}

/// After a successful reveal at 1-based `(x, y)` — whether it opened a safe
/// cell, lost, or won — revealing the same cell again fails with
/// `MoveAlreadyPlayed`.
pub proof fn lemma_reveal_twice_fails(pre: MinesWeeper, post: MinesWeeper, x: usize, y: usize)
    requires
        pre.wf(),
        post.wf(),
        pre.play_error(x, y) is None,
        reveal_transition(pre, post, x - 1, y - 1),
    ensures
        post.play_error(x, y) == Some(BoardError::MoveAlreadyPlayed),
{
    lemma_idx_bounds(pre.width as int, pre.height as int, x - 1, y - 1);
}

/// Flagging a masked cell makes a reveal there fail with
/// `MoveAlreadyMarked`.
pub proof fn lemma_flagged_reveal_fails(pre: MinesWeeper, post: MinesWeeper, x: usize, y: usize)
    requires
        pre.wf(),
        pre.toggle_error(x, y) is None,
        !pre.marked_at(x - 1, y - 1),
        toggle_transition(pre, post, x - 1, y - 1),
    ensures
        post.play_error(x, y) == Some(BoardError::MoveAlreadyMarked),
{
    lemma_idx_bounds(pre.width as int, pre.height as int, x - 1, y - 1);
}

/// Unflagging the cell again permits the reveal: after toggling a set flag
/// off, `play` no longer has a reason to reject the move.
pub proof fn lemma_unflag_permits_reveal(pre: MinesWeeper, post: MinesWeeper, x: usize, y: usize)
    requires
        pre.wf(),
        pre.toggle_error(x, y) is None,
        pre.marked_at(x - 1, y - 1),
        toggle_transition(pre, post, x - 1, y - 1),
    ensures
        post.play_error(x, y) is None,
{
    lemma_idx_bounds(pre.width as int, pre.height as int, x - 1, y - 1);
}

/// When a reveal leaves the masked cells exactly the mines, the game is
/// won: over, fully unmasked, every mine flagged, and every mine shows the
/// flag glyph in the snapshot.
pub proof fn lemma_win_detection(pre: MinesWeeper, post: MinesWeeper, x0: int, y0: int)
    requires
        pre.wf(),
        post.wf(),
        reveal_transition(pre, post, x0, y0),
        !post.mine_at(x0, y0),
        all_safe_revealed(post.board@, pre.masked_board@.update(y0 * pre.width + x0, false)),
    ensures
        post.game_won,
        post.is_game_over_spec(),
        all_false(post.masked_board@),
        forall|i: int|
            0 <= i < post.board@.len() && post.board@[i] == MINE ==> post.marked_board@[i],
        forall|a: int, b: int|
            post.in_bounds(a, b) && post.mine_at(a, b) ==> #[trigger] post.glyph(a, b) == '⚑',
{
    assert forall|a: int, b: int|
        post.in_bounds(a, b) && post.mine_at(a, b) implies #[trigger] post.glyph(a, b)
        == '⚑' by {
        lemma_idx_bounds(post.width as int, post.height as int, a, b);
    }
}

/// Revealing a mine loses the game: over, lost, the whole board unmasked,
/// and the struck mine shows the mine glyph in the snapshot.
pub proof fn lemma_loss_detection(pre: MinesWeeper, post: MinesWeeper, x0: int, y0: int)
    requires
        pre.wf(),
        post.wf(),
        reveal_transition(pre, post, x0, y0),
        post.mine_at(x0, y0),
        pre.in_bounds(x0, y0),
        !pre.marked_at(x0, y0),
    ensures
        post.game_lost,
        post.is_game_over_spec(),
        all_false(post.masked_board@),
        post.glyph(x0, y0) == '✴',
{
    lemma_idx_bounds(pre.width as int, pre.height as int, x0, y0);
}

/// Toggling a flag before the first reveal fails with
/// `GameNotInitialized`: the mines are not yet placed.
pub proof fn lemma_flag_before_init_fails(b: MinesWeeper, x: usize, y: usize)
    requires
        !b.initialized,
        1 <= x <= b.width,
        1 <= y <= b.height,
    ensures
        b.toggle_error(x, y) == Some(BoardError::GameNotInitialized),
{
}

/// A finished game is permanent: on a lost or won board every further
/// reveal and every further flag toggle is rejected, so the outcome flags
/// can never change again.
pub proof fn lemma_game_over_is_stable(b: MinesWeeper, x: usize, y: usize)
    requires
        b.wf(),
        b.is_game_over_spec(),
    ensures
        b.play_error(x, y) is Some,
        b.toggle_error(x, y) is Some,
{
    if 1 <= x <= b.width && 1 <= y <= b.height {
        lemma_idx_bounds(b.width as int, b.height as int, x - 1, y - 1);
    }
}

} // verus!

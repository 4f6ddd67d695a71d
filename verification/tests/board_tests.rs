use minesweeper_lib::args::Args;
use minesweeper_lib::board::MinesWeeper;
use minesweeper_lib::board::MINE;
use minesweeper_lib::errors::BoardError;

fn count_board_mines(b: &MinesWeeper) -> usize {
    b.board.iter().filter(|&&v| v == MINE).count()
}

#[test]
fn mines_left_equals_budget_after_new() {
    let b = MinesWeeper::new(3, 3, 1);
    assert_eq!(b.mines_left(), 1);
    assert!(!b.is_game_over());
    assert!(!b.initialized);
}

#[test]
fn first_reveal_places_exact_mines_and_spares_the_cell() {
    // Reveal the center of a 3x3 board (0-based (1,1), 1-based (2,2)).
    let mut b = MinesWeeper::new(3, 3, 1);
    assert!(b.play(2, 2).is_ok());
    assert!(b.initialized);
    assert_eq!(count_board_mines(&b), 1);
    // The revealed cell is never a mine.
    assert_ne!(b.board[1 * 3 + 1], MINE);
    // The revealed cell is unmasked.
    assert!(!b.masked_board[1 * 3 + 1]);
    assert!(!b.is_game_over());
}

#[test]
fn adjacency_counts_are_exact() {
    let mut b = MinesWeeper::new(4, 3, 3);
    assert!(b.play(1, 1).is_ok());
    let (w, h) = (4i64, 3i64);
    for y in 0..h {
        for x in 0..w {
            let v = b.board[(y * w + x) as usize];
            if v == MINE {
                continue;
            }
            let mut expected = 0u8;
            for dy in -1..=1i64 {
                for dx in -1..=1i64 {
                    if dx == 0 && dy == 0 {
                        continue;
                    }
                    let (nx, ny) = (x + dx, y + dy);
                    if nx < 0 || ny < 0 || nx >= w || ny >= h {
                        continue;
                    }
                    if b.board[(ny * w + nx) as usize] == MINE {
                        expected += 1;
                    }
                }
            }
            assert_eq!(v, expected);
        }
    }
}

#[test]
fn revealing_the_same_cell_twice_fails() {
    let mut b = MinesWeeper::new(3, 3, 1);
    assert!(b.play(1, 1).is_ok());
    assert_eq!(b.play(1, 1), Err(BoardError::MoveAlreadyPlayed));
}

#[test]
fn flagged_cell_cannot_be_revealed_until_unflagged() {
    let mut b = MinesWeeper::new(3, 3, 1);
    assert!(b.play(2, 2).is_ok());
    assert!(b.toggle_mark(1, 1).is_ok());
    assert_eq!(b.play(1, 1), Err(BoardError::MoveAlreadyMarked));
    assert!(b.toggle_mark(1, 1).is_ok());
    assert!(b.play(1, 1).is_ok());
}

#[test]
fn flag_before_first_reveal_is_rejected() {
    let mut b = MinesWeeper::new(3, 3, 1);
    assert_eq!(b.toggle_mark(1, 1), Err(BoardError::GameNotInitialized));
}

#[test]
fn out_of_bounds_moves_are_rejected() {
    let mut b = MinesWeeper::new(3, 3, 1);
    assert_eq!(b.play(0, 1), Err(BoardError::InvalidMove));
    assert_eq!(b.play(1, 0), Err(BoardError::InvalidMove));
    assert_eq!(b.play(4, 3), Err(BoardError::InvalidMove));
    assert_eq!(b.play(3, 4), Err(BoardError::InvalidMove));
    assert!(b.play(2, 2).is_ok());
    assert_eq!(b.toggle_mark(4, 1), Err(BoardError::InvalidMove));
    assert_eq!(b.toggle_mark(1, 4), Err(BoardError::InvalidMove));
}

#[test]
fn winning_reveal_finishes_and_flags_every_mine() {
    // On 2x2 with 3 mines the first reveal leaves only mines masked,
    // so it wins immediately.
    let mut b = MinesWeeper::new(2, 2, 3);
    assert!(b.play(1, 1).is_ok());
    assert!(b.game_won);
    assert!(!b.game_lost);
    assert!(b.is_game_over());
    // Fully unmasked, every mine flagged, counter in step.
    assert!(b.masked_board.iter().all(|&m| !m));
    for i in 0..4 {
        assert_eq!(b.marked_board[i], b.board[i] == MINE);
    }
    assert_eq!(b.total_marked, 3);
    assert_eq!(b.mines_left(), 0);
    // The revealed corner neighbors all three mines.
    let snapshot = b.render();
    assert_eq!(
        snapshot,
        "+---+---+\n\
         | 3 | \u{2691} |\n\
         +---+---+\n\
         | \u{2691} | \u{2691} |\n\
         +---+---+\n"
    );
}

#[test]
fn revealing_a_mine_loses_and_unmasks_everything() {
    let mut b = MinesWeeper::new(3, 3, 1);
    assert!(b.play(2, 2).is_ok());
    let mine = b.board.iter().position(|&v| v == MINE).unwrap();
    let (mx, my) = (mine % 3, mine / 3);
    // Revealing a mine is a legal move, not an error.
    assert!(b.play(mx + 1, my + 1).is_ok());
    assert!(b.game_lost);
    assert!(!b.game_won);
    assert!(b.is_game_over());
    assert!(b.masked_board.iter().all(|&m| !m));
    let snapshot = b.render();
    assert!(snapshot.contains('\u{2734}'));
    // Nothing more can happen on a finished board.
    assert_eq!(b.play(1, 1), Err(BoardError::MoveAlreadyPlayed));
    assert_eq!(b.toggle_mark(1, 1), Err(BoardError::MoveAlreadyPlayed));
    assert!(b.game_lost && !b.game_won);
}

#[test]
fn flag_counter_drives_mines_left_and_saturates() {
    let mut b = MinesWeeper::new(3, 3, 2);
    assert!(b.play(2, 2).is_ok());
    assert_eq!(b.mines_left(), 2);
    assert!(b.toggle_mark(1, 1).is_ok());
    assert_eq!(b.mines_left(), 1);
    assert!(b.toggle_mark(1, 2).is_ok());
    assert_eq!(b.mines_left(), 0);
    // Over-flagging beyond the budget saturates the display at zero.
    assert!(b.toggle_mark(1, 3).is_ok());
    assert_eq!(b.mines_left(), 0);
    assert_eq!(b.total_marked, 3);
    assert!(b.toggle_mark(1, 3).is_ok());
    assert_eq!(b.mines_left(), 0);
    assert!(b.toggle_mark(1, 2).is_ok());
    assert_eq!(b.mines_left(), 1);
}

#[test]
fn snapshot_shows_blank_masked_cells_flags_and_zero() {
    // A hand-laid single-cell board: one revealed safe cell with no
    // neighbors renders as the digit zero.
    let b = MinesWeeper {
        width: 1,
        height: 1,
        mines: 0,
        board: vec![0],
        masked_board: vec![false],
        marked_board: vec![false],
        total_marked: 0,
        initialized: true,
        game_lost: false,
        game_won: false,
    };
    assert_eq!(b.render(), "+---+\n| 0 |\n+---+\n");

    // Masked cells are blank; flagged cells show the flag glyph even
    // while masked.
    let b = MinesWeeper {
        width: 2,
        height: 1,
        mines: 1,
        board: vec![1, MINE],
        masked_board: vec![true, true],
        marked_board: vec![false, true],
        total_marked: 1,
        initialized: true,
        game_lost: false,
        game_won: false,
    };
    assert_eq!(b.render(), "+---+\n|   | \u{2691} |\n+---+\n");
}

#[test]
fn fresh_board_is_fully_masked_and_blank() {
    let b = MinesWeeper::new(3, 3, 1);
    // Every cell still masked, no flags, no mines placed.
    assert!(b.masked_board.iter().all(|&m| m));
    assert!(b.marked_board.iter().all(|&m| !m));
    assert_eq!(count_board_mines(&b), 0);
    let snapshot = b.render();
    assert_eq!(
        snapshot,
        "+---+---+---+\n\
         |   |   |   |\n\
         +---+---+---+\n\
         |   |   |   |\n\
         +---+---+---+\n\
         |   |   |   |\n\
         +---+---+---+\n"
    );
}

#[test]
fn args_validation_accepts_and_rejects_exactly() {
    assert!(Args::new(2, 2, 3).is_ok());
    let a = Args::new(3, 4, 5).unwrap();
    assert_eq!((a.width, a.height, a.mines), (3, 4, 5));

    assert_eq!(
        Args::new(2, 2, 4),
        Err("Mines must be less than the board size".to_string())
    );
    assert_eq!(Args::new(0, 2, 1), Err("Width must be greater than 0".to_string()));
    assert_eq!(Args::new(2, 0, 1), Err("Height must be greater than 0".to_string()));
    assert_eq!(Args::new(2, 2, 0), Err("Mines must be greater than 0".to_string()));
    assert_eq!(
        Args::new(usize::MAX, 2, 1),
        Err("Board size is too large".to_string())
    );
}

//! The board engine: grid state, lazy first-click-safe mine placement,
//! single-cell reveal semantics, flagging, and win/loss detection.
//!
//! Grids are stored flat in row-major order: the cell at column `x`, row `y`
//! lives at index `y * width + x`. A board value of 9 marks a mine; any other
//! value is the cell's count of adjacent mines (0 through 8).

use rand::Rng;
use vstd::prelude::*;
use vstd::string::StringExecFns;

use crate::errors::BoardError;

verus! {

/// The board value that marks a mine.
pub const MINE: u8 = 9;

/// The cell at column `x`, row `y` of a flat row-major grid of width `w`.
pub open spec fn cell_of(s: Seq<u8>, w: int, x: int, y: int) -> u8 {
    s[y * w + x]
}

/// 1 when `(x, y)` is on the grid and holds a mine, 0 otherwise.
/// Off-grid positions count 0, which makes edge and corner cells
/// see fewer than 8 neighbors.
pub open spec fn mine_ind(s: Seq<u8>, w: int, h: int, x: int, y: int) -> int {
    if 0 <= x < w && 0 <= y < h && cell_of(s, w, x, y) == MINE {
        1
    } else {
        0
    }
}

/// The number of mines among the up-to-8 grid neighbors of `(x, y)`.
pub open spec fn adjacent_mines(s: Seq<u8>, w: int, h: int, x: int, y: int) -> int {
    mine_ind(s, w, h, x - 1, y - 1) + mine_ind(s, w, h, x, y - 1) + mine_ind(s, w, h, x + 1, y - 1)
        + mine_ind(s, w, h, x - 1, y) + mine_ind(s, w, h, x + 1, y) + mine_ind(s, w, h, x - 1, y + 1)
        + mine_ind(s, w, h, x, y + 1) + mine_ind(s, w, h, x + 1, y + 1)
}

/// How many entries of `s` are mines.
pub open spec fn count_mines(s: Seq<u8>) -> int
    decreases s.len(),
{
    if s.len() == 0 {
        0
    } else {
        count_mines(s.drop_last()) + if s.last() == MINE {
            1int
        } else {
            0int
        }
    }
}

/// How many entries of `s` are true.
pub open spec fn count_true(s: Seq<bool>) -> int
    decreases s.len(),
{
    if s.len() == 0 {
        0
    } else {
        count_true(s.drop_last()) + if s.last() {
            1int
        } else {
            0int
        }
    }
}

/// Every entry of `s` is false.
pub open spec fn all_false(s: Seq<bool>) -> bool {
    forall|i: int| 0 <= i < s.len() ==> !s[i]
}

/// The win condition on a grid and a mask: the masked cells are exactly
/// the mines, no more and no fewer.
pub open spec fn all_safe_revealed(b: Seq<u8>, m: Seq<bool>) -> bool {
    forall|i: int| 0 <= i < b.len() ==> (#[trigger] m[i] <==> b[i] == MINE)
}

/// A row-major index stays inside the grid.
pub proof fn lemma_idx_bounds(w: int, h: int, x: int, y: int)
    by (nonlinear_arith)
    requires
        0 <= x < w,
        0 <= y < h,
    ensures
        0 <= y * w + x < w * h,
{
}

/// Distinct coordinates have distinct row-major indices.
pub proof fn lemma_idx_injective(w: int, h: int, x1: int, y1: int, x2: int, y2: int)
    by (nonlinear_arith)
    requires
        0 <= x1 < w,
        0 <= y1 < h,
        0 <= x2 < w,
        0 <= y2 < h,
        !(x1 == x2 && y1 == y2),
    ensures
        y1 * w + x1 != y2 * w + x2,
{
}

/// A grid without mines counts zero mines.
pub proof fn lemma_count_mines_none(s: Seq<u8>)
    requires
        forall|i: int| 0 <= i < s.len() ==> s[i] != MINE,
    ensures
        count_mines(s) == 0,
    decreases s.len(),
{
    if s.len() > 0 {
        lemma_count_mines_none(s.drop_last());
    }
}

/// Turning a non-mine entry into a mine raises the count by one.
pub proof fn lemma_count_mines_place(s: Seq<u8>, i: int)
    requires
        0 <= i < s.len(),
        s[i] != MINE,
    ensures
        count_mines(s.update(i, MINE)) == count_mines(s) + 1,
    decreases s.len(),
{
    let t = s.update(i, MINE);
    if i == s.len() - 1 {
        assert(t.drop_last() =~= s.drop_last());
    } else {
        assert(t.drop_last() =~= s.drop_last().update(i, MINE));
        lemma_count_mines_place(s.drop_last(), i);
    }
}

/// Two grids with the same mine positions count the same mines.
pub proof fn lemma_count_mines_same(s1: Seq<u8>, s2: Seq<u8>)
    requires
        s1.len() == s2.len(),
        forall|i: int| 0 <= i < s1.len() ==> ((s1[i] == MINE) <==> (s2[i] == MINE)),
    ensures
        count_mines(s1) == count_mines(s2),
    decreases s1.len(),
{
    if s1.len() > 0 {
        assert(forall|i: int| 0 <= i < s1.len() - 1 ==> s1.drop_last()[i] == s1[i]);
        lemma_count_mines_same(s1.drop_last(), s2.drop_last());
    }
}

pub proof fn lemma_count_true_nonneg(s: Seq<bool>)
    ensures
        0 <= count_true(s),
    decreases s.len(),
{
    if s.len() > 0 {
        lemma_count_true_nonneg(s.drop_last());
    }
}

pub proof fn lemma_count_true_le_len(s: Seq<bool>)
    ensures
        count_true(s) <= s.len(),
    decreases s.len(),
{
    if s.len() > 0 {
        lemma_count_true_le_len(s.drop_last());
    }
}

/// An all-false sequence counts zero trues.
pub proof fn lemma_count_true_none(s: Seq<bool>)
    requires
        all_false(s),
    ensures
        count_true(s) == 0,
    decreases s.len(),
{
    if s.len() > 0 {
        assert(all_false(s.drop_last()));
        lemma_count_true_none(s.drop_last());
    }
}

/// Flipping one entry moves the count of trues by exactly that entry's change.
pub proof fn lemma_count_true_update(s: Seq<bool>, i: int, v: bool)
    requires
        0 <= i < s.len(),
    ensures
        count_true(s.update(i, v)) == count_true(s) + (if v && !s[i] {
            1int
        } else if !v && s[i] {
            -1int
        } else {
            0int
        }),
    decreases s.len(),
{
    let t = s.update(i, v);
    if i == s.len() - 1 {
        assert(t.drop_last() =~= s.drop_last());
    } else {
        assert(t.drop_last() =~= s.drop_last().update(i, v));
        lemma_count_true_update(s.drop_last(), i, v);
    }
}

/// Relies on `rand::thread_rng` and `rand::Rng::gen_range`: draws a value
/// from the range `0..n`, so the result is below `n`. The range is non-empty
/// because `n >= 1`, so the call does not panic. Nothing more is assumed of
/// the draw: callers must be correct for every value below `n`.
#[verifier::external_body]
fn random_below(n: usize) -> (r: usize)
    requires
        n >= 1,
    ensures
        r < n,
{
    rand::thread_rng().gen_range(0..n)
}

/// Writing one cell of a grid leaves every other cell unchanged.
pub proof fn lemma_grid_update(s: Seq<u8>, w: int, h: int, x0: int, y0: int, v: u8)
    requires
        s.len() == w * h,
        0 <= x0 < w,
        0 <= y0 < h,
    ensures
        cell_of(s.update(y0 * w + x0, v), w, x0, y0) == v,
        forall|a: int, b: int|
            0 <= a < w && 0 <= b < h && !(a == x0 && b == y0) ==> #[trigger] cell_of(
                s.update(y0 * w + x0, v),
                w,
                a,
                b,
            ) == cell_of(s, w, a, b),
{
    lemma_idx_bounds(w, h, x0, y0);
    assert forall|a: int, b: int|
        0 <= a < w && 0 <= b < h && !(a == x0 && b == y0) implies #[trigger] cell_of(
        s.update(y0 * w + x0, v),
        w,
        a,
        b,
    ) == cell_of(s, w, a, b) by {
        lemma_idx_bounds(w, h, a, b);
        lemma_idx_injective(w, h, a, b, x0, y0);
    }
}

/// Two grids with the same mine positions agree on each neighbor indicator.
pub proof fn lemma_mine_ind_same(s1: Seq<u8>, s2: Seq<u8>, w: int, h: int, x: int, y: int)
    requires
        s1.len() == w * h,
        s2.len() == w * h,
        forall|i: int| 0 <= i < s1.len() ==> ((s1[i] == MINE) <==> (s2[i] == MINE)),
    ensures
        mine_ind(s1, w, h, x, y) == mine_ind(s2, w, h, x, y),
{
    if 0 <= x < w && 0 <= y < h {
        lemma_idx_bounds(w, h, x, y);
    }
}

/// Two grids with the same mine positions agree on every adjacency count.
pub proof fn lemma_adjacent_same_mines(s1: Seq<u8>, s2: Seq<u8>, w: int, h: int, x: int, y: int)
    requires
        s1.len() == w * h,
        s2.len() == w * h,
        forall|i: int| 0 <= i < s1.len() ==> ((s1[i] == MINE) <==> (s2[i] == MINE)),
    ensures
        adjacent_mines(s1, w, h, x, y) == adjacent_mines(s2, w, h, x, y),
{
    lemma_mine_ind_same(s1, s2, w, h, x - 1, y - 1);
    lemma_mine_ind_same(s1, s2, w, h, x, y - 1);
    lemma_mine_ind_same(s1, s2, w, h, x + 1, y - 1);
    lemma_mine_ind_same(s1, s2, w, h, x - 1, y);
    lemma_mine_ind_same(s1, s2, w, h, x + 1, y);
    lemma_mine_ind_same(s1, s2, w, h, x - 1, y + 1);
    lemma_mine_ind_same(s1, s2, w, h, x, y + 1);
    lemma_mine_ind_same(s1, s2, w, h, x + 1, y + 1);
}

/// The glyph for a revealed adjacency count, 0 through 8.
pub open spec fn digit_char(d: int) -> char {
    if d == 0 {
        '0'
    } else if d == 1 {
        '1'
    } else if d == 2 {
        '2'
    } else if d == 3 {
        '3'
    } else if d == 4 {
        '4'
    } else if d == 5 {
        '5'
    } else if d == 6 {
        '6'
    } else if d == 7 {
        '7'
    } else {
        '8'
    }
}

/// The delimiter line between board rows: a `+` followed by `n` repetitions
/// of `---+`.
pub open spec fn dashes(n: int) -> Seq<char>
    decreases n,
{
    if n <= 0 {
        seq!['+']
    } else {
        dashes(n - 1) + seq!['-', '-', '-', '+']
    }
}

/// Adjacency correctness depends only on the grid contents and dimensions,
/// so it carries over to any board value with the same ones.
pub proof fn lemma_adjacency_same_board(pre: MinesWeeper, post: MinesWeeper)
    requires
        pre.adjacency_ok(),
        post.board@ == pre.board@,
        post.width == pre.width,
        post.height == pre.height,
    ensures
        post.adjacency_ok(),
{
    assert forall|a: int, b: int|
        post.in_bounds(a, b) && #[trigger] post.cell(a, b) != MINE implies post.cell(a, b)
        == adjacent_mines(post.board@, post.width as int, post.height as int, a, b) by {
        assert(pre.cell(a, b) == post.cell(a, b));
    }
}

/// What a successful reveal at 0-based `(x0, y0)` does to the board.
///
/// If the cell is a mine the game is lost and the whole board is unmasked.
/// Otherwise the cell is unmasked; if the masked cells then coincide exactly
/// with the mines the game is won, the board is unmasked and every mine is
/// flagged. A first reveal also places exactly `mines` mines, none of them
/// under the revealed cell.
pub open spec fn reveal_transition(pre: MinesWeeper, post: MinesWeeper, x0: int, y0: int) -> bool {
    let idx = y0 * pre.width + x0;
    let m1 = pre.masked_board@.update(idx, false);
    &&& post.width == pre.width
    &&& post.height == pre.height
    &&& post.mines == pre.mines
    &&& post.initialized
    &&& post.board@.len() == pre.board@.len()
    &&& (pre.initialized ==> post.board@ == pre.board@)
    &&& (!pre.initialized ==> count_mines(post.board@) == pre.mines && !post.mine_at(x0, y0))
    &&& (if post.mine_at(x0, y0) {
        &&& post.game_lost
        &&& !post.game_won
        &&& post.masked_board@.len() == pre.masked_board@.len()
        &&& all_false(post.masked_board@)
        &&& post.marked_board@ == pre.marked_board@
        &&& post.total_marked == pre.total_marked
    } else if all_safe_revealed(post.board@, m1) {
        &&& post.game_won
        &&& !post.game_lost
        &&& post.masked_board@.len() == pre.masked_board@.len()
        &&& all_false(post.masked_board@)
        &&& post.marked_board@.len() == pre.marked_board@.len()
        &&& forall|i: int|
            0 <= i < post.marked_board@.len() ==> (#[trigger] post.marked_board@[i] <==> (
            pre.marked_board@[i] || post.board@[i] == MINE))
    } else {
        &&& !post.game_lost
        &&& !post.game_won
        &&& post.masked_board@ == m1
        &&& post.marked_board@ == pre.marked_board@
        &&& post.total_marked == pre.total_marked
    })
}

/// What a successful flag toggle at 0-based `(x0, y0)` does to the board:
/// that one flag bit flips, the flag counter follows it, and nothing else
/// changes.
pub open spec fn toggle_transition(pre: MinesWeeper, post: MinesWeeper, x0: int, y0: int) -> bool {
    let idx = y0 * pre.width + x0;
    &&& post.width == pre.width
    &&& post.height == pre.height
    &&& post.mines == pre.mines
    &&& post.board@ == pre.board@
    &&& post.masked_board@ == pre.masked_board@
    &&& post.initialized == pre.initialized
    &&& post.game_lost == pre.game_lost
    &&& post.game_won == pre.game_won
    &&& post.marked_board@ == pre.marked_board@.update(idx, !pre.marked_board@[idx])
    &&& post.total_marked == pre.total_marked + (if pre.marked_board@[idx] {
        -1int
    } else {
        1int
    })
}

/// The delimiter line of `make_delim`, built left to right.
#[verifier::loop_isolation(false)]
fn make_delim(h: usize) -> (r: String)
    ensures
        r@ == dashes(h as int),
{
    let mut s = String::new();
    s.append("+");
    proof {
        reveal_strlit("+");
        assert(s@ =~= dashes(0));
    }
    let mut i: usize = 0;
    while i < h
        invariant
            i <= h,
            s@ == dashes(i as int),
        decreases h - i,
    {
        s.append("---+");
        proof {
            reveal_strlit("---+");
            assert("---+"@ =~= seq!['-', '-', '-', '+']);
            assert(s@ =~= dashes(i + 1));
        }
        i = i + 1;
    }
    s
}

/// A vector of `len` copies of `val`.
fn filled_u8(len: usize, val: u8) -> (v: Vec<u8>)
    ensures
        v@.len() == len,
        forall|i: int| 0 <= i < len ==> v@[i] == val,
{
    let mut v: Vec<u8> = Vec::new();
    let mut i: usize = 0;
    while i < len
        invariant
            i <= len,
            v@.len() == i,
            forall|j: int| 0 <= j < i ==> v@[j] == val,
        decreases len - i,
    {
        v.push(val);
        i = i + 1;
    }
    v
}

/// A vector of `len` copies of `val`.
fn filled_bool(len: usize, val: bool) -> (v: Vec<bool>)
    ensures
        v@.len() == len,
        forall|i: int| 0 <= i < len ==> v@[i] == val,
{
    let mut v: Vec<bool> = Vec::new();
    let mut i: usize = 0;
    while i < len
        invariant
            i <= len,
            v@.len() == i,
            forall|j: int| 0 <= j < i ==> v@[j] == val,
        decreases len - i,
    {
        v.push(val);
        i = i + 1;
    }
    v
}

/// The Minesweeper board engine. Mines are placed lazily: the grids stay
/// blank until the first reveal, which is guaranteed not to hit a mine.
pub struct MinesWeeper {
    pub width: usize,
    pub height: usize,
    pub mines: usize,
    /// Cell values: `MINE` for a mine, otherwise the adjacent-mine count.
    pub board: Vec<u8>,
    /// True while a cell is still hidden from the player.
    pub masked_board: Vec<bool>,
    /// True while a cell carries a player flag.
    pub marked_board: Vec<bool>,
    /// Always equals the number of true entries of `marked_board`.
    pub total_marked: usize,
    /// Set once, by the first successful reveal.
    pub initialized: bool,
    pub game_lost: bool,
    pub game_won: bool,
}

impl MinesWeeper {
    pub open spec fn cells(self) -> int {
        self.width * self.height
    }

    pub open spec fn in_bounds(self, x: int, y: int) -> bool {
        0 <= x < self.width && 0 <= y < self.height
    }

    /// The stored value of the cell at `(x, y)`.
    pub open spec fn cell(self, x: int, y: int) -> u8 {
        cell_of(self.board@, self.width as int, x, y)
    }

    pub open spec fn mine_at(self, x: int, y: int) -> bool {
        self.cell(x, y) == MINE
    }

    pub open spec fn masked_at(self, x: int, y: int) -> bool {
        self.masked_board@[y * self.width + x]
    }

    pub open spec fn marked_at(self, x: int, y: int) -> bool {
        self.marked_board@[y * self.width + x]
    }

    /// Every non-mine cell stores the exact number of its mine neighbors.
    pub open spec fn adjacency_ok(self) -> bool {
        forall|x: int, y: int|
            self.in_bounds(x, y) && #[trigger] self.cell(x, y) != MINE ==> self.cell(x, y)
                == adjacent_mines(self.board@, self.width as int, self.height as int, x, y)
    }

    /// The engine's invariant. Established by `new` and preserved by every
    /// operation.
    pub open spec fn wf(self) -> bool {
        &&& self.width >= 1
        &&& self.height >= 1
        &&& 1 <= self.mines < self.cells()
        &&& self.cells() <= usize::MAX
        &&& self.board@.len() == self.cells()
        &&& self.masked_board@.len() == self.cells()
        &&& self.marked_board@.len() == self.cells()
        &&& forall|i: int| 0 <= i < self.board@.len() ==> self.board@[i] <= MINE
        &&& self.total_marked == count_true(self.marked_board@)
        &&& (self.initialized ==> count_mines(self.board@) == self.mines && self.adjacency_ok())
        &&& (!self.initialized ==> {
            &&& forall|i: int| 0 <= i < self.board@.len() ==> self.board@[i] == 0
            &&& forall|i: int| 0 <= i < self.masked_board@.len() ==> self.masked_board@[i]
            &&& all_false(self.marked_board@)
            &&& !self.game_lost
            &&& !self.game_won
        })
        &&& (self.game_lost ==> self.initialized && !self.game_won)
        &&& (self.game_won ==> self.initialized && !self.game_lost)
        &&& ((self.game_lost || self.game_won) ==> all_false(self.masked_board@))
        &&& (self.game_won ==> forall|i: int|
            0 <= i < self.board@.len() && self.board@[i] == MINE ==> self.marked_board@[i])
        &&& (!self.game_lost && !self.game_won ==> forall|i: int|
            0 <= i < self.marked_board@.len() && #[trigger] self.marked_board@[i]
                ==> self.masked_board@[i])
    }

    /// A fresh board: everything masked, nothing flagged, no mines placed yet.
    /// The caller supplies a validated configuration (see `Args::new`).
    pub fn new(width: usize, height: usize, mines: usize) -> (r: MinesWeeper)
        requires
            crate::args::Args::valid_config(width, height, mines),
        ensures
            r.wf(),
            r.width == width,
            r.height == height,
            r.mines == mines,
            !r.initialized,
            !r.game_lost,
            !r.game_won,
            r.total_marked == 0,
    {
        let cells = width * height;
        let r = MinesWeeper {
            width,
            height,
            mines,
            board: filled_u8(cells, 0),
            masked_board: filled_bool(cells, true),
            marked_board: filled_bool(cells, false),
            total_marked: 0,
            initialized: false,
            game_lost: false,
            game_won: false,
        };
        proof {
            lemma_count_true_none(r.marked_board@);
        }
        r
    }

    /// Count the mines among the up-to-8 grid neighbors of `(x, y)`,
    /// 0-based coordinates.
    fn count_mines_surrounding(&self, x: usize, y: usize) -> (c: u8)
        requires
            self.width * self.height <= usize::MAX,
            self.board@.len() == self.width * self.height,
            x < self.width,
            y < self.height,
        ensures
            c == adjacent_mines(
                self.board@,
                self.width as int,
                self.height as int,
                x as int,
                y as int,
            ),
            c <= 8,
    {
        let w = self.width;
        let h = self.height;
        let mut c: u8 = 0;
        if x >= 1 && y >= 1 {
            proof {
                lemma_idx_bounds(w as int, h as int, x - 1, y - 1);
            }
            if self.board[(y - 1) * w + (x - 1)] == MINE {
                c = c + 1;
            }
        }
        if y >= 1 {
            proof {
                lemma_idx_bounds(w as int, h as int, x as int, y - 1);
            }
            if self.board[(y - 1) * w + x] == MINE {
                c = c + 1;
            }
        }
        if x + 1 < w && y >= 1 {
            proof {
                lemma_idx_bounds(w as int, h as int, x + 1, y - 1);
            }
            if self.board[(y - 1) * w + (x + 1)] == MINE {
                c = c + 1;
            }
        }
        if x >= 1 {
            proof {
                lemma_idx_bounds(w as int, h as int, x - 1, y as int);
            }
            if self.board[y * w + (x - 1)] == MINE {
                c = c + 1;
            }
        }
        if x + 1 < w {
            proof {
                lemma_idx_bounds(w as int, h as int, x + 1, y as int);
            }
            if self.board[y * w + (x + 1)] == MINE {
                c = c + 1;
            }
        }
        if x >= 1 && y + 1 < h {
            proof {
                lemma_idx_bounds(w as int, h as int, x - 1, y + 1);
            }
            if self.board[(y + 1) * w + (x - 1)] == MINE {
                c = c + 1;
            }
        }
        if y + 1 < h {
            proof {
                lemma_idx_bounds(w as int, h as int, x as int, y + 1);
            }
            if self.board[(y + 1) * w + x] == MINE {
                c = c + 1;
            }
        }
        if x + 1 < w && y + 1 < h {
            proof {
                lemma_idx_bounds(w as int, h as int, x + 1, y + 1);
            }
            if self.board[(y + 1) * w + (x + 1)] == MINE {
                c = c + 1;
            }
        }
        c
    }

    /// Place exactly `mines` mines on the blank board, none of them at the
    /// first-click cell `(x, y)`. Each mine lands on a cell drawn at random
    /// from the remaining candidate cells, so placement takes bounded time
    /// even at maximal mine density.
    #[verifier::loop_isolation(false)]
    fn populate_board(&mut self, x: usize, y: usize)
        requires
            old(self).wf(),
            !old(self).initialized,
            x < old(self).width,
            y < old(self).height,
        ensures
            final(self).width == old(self).width,
            final(self).height == old(self).height,
            final(self).mines == old(self).mines,
            final(self).masked_board@ == old(self).masked_board@,
            final(self).marked_board@ == old(self).marked_board@,
            final(self).total_marked == old(self).total_marked,
            final(self).initialized == old(self).initialized,
            final(self).game_lost == old(self).game_lost,
            final(self).game_won == old(self).game_won,
            final(self).board@.len() == old(self).board@.len(),
            forall|i: int|
                0 <= i < final(self).board@.len() ==> final(self).board@[i] == 0
                    || final(self).board@[i] == MINE,
            count_mines(final(self).board@) == old(self).mines,
            final(self).board@[y * old(self).width + x] == 0,
    {
        let w = self.width;
        let h = self.height;
        let cells = w * h;
        proof {
            lemma_idx_bounds(w as int, h as int, x as int, y as int);
        }
        let target = y * w + x;

        let mut candidates: Vec<usize> = Vec::new();
        let mut i: usize = 0;
        while i < cells
            invariant
                i <= cells,
                candidates@.len() == if i <= target {
                    i as int
                } else {
                    i - 1
                },
                forall|k: int|
                    0 <= k < candidates@.len() ==> #[trigger] candidates@[k] < i && candidates@[k]
                        != target,
                forall|k1: int, k2: int|
                    0 <= k1 < k2 < candidates@.len() ==> candidates@[k1] != candidates@[k2],
            decreases cells - i,
        {
            if i != target {
                candidates.push(i);
            }
            i = i + 1;
        }

        proof {
            lemma_count_mines_none(self.board@);
        }
        let mut placed: usize = 0;
        while placed < self.mines
            invariant
                placed <= self.mines,
                self.width == w,
                self.height == h,
                self.mines == old(self).mines,
                self.masked_board@ == old(self).masked_board@,
                self.marked_board@ == old(self).marked_board@,
                self.total_marked == old(self).total_marked,
                self.initialized == old(self).initialized,
                self.game_lost == old(self).game_lost,
                self.game_won == old(self).game_won,
                self.board@.len() == cells,
                candidates@.len() == cells - 1 - placed,
                forall|k: int|
                    0 <= k < candidates@.len() ==> #[trigger] candidates@[k] < cells
                        && candidates@[k] != target && self.board@[candidates@[k] as int] == 0,
                forall|k1: int, k2: int|
                    0 <= k1 < k2 < candidates@.len() ==> candidates@[k1] != candidates@[k2],
                forall|i: int|
                    0 <= i < cells ==> self.board@[i] == 0 || self.board@[i] == MINE,
                count_mines(self.board@) == placed,
                self.board@[target as int] == 0,
            decreases self.mines - placed,
        {
            let r = random_below(candidates.len());
            let c = candidates.swap_remove(r);
            let ghost pre = self.board@;
            self.board[c] = MINE;
            proof {
                lemma_count_mines_place(pre, c as int);
            }
            placed = placed + 1;
        }
    }

    /// The first reveal: place the mines away from `(x, y)`, unmask that
    /// cell, fill every non-mine cell with its adjacency count, and mark
    /// the board initialized. 0-based coordinates.
    #[verifier::loop_isolation(false)]
    fn init_board(&mut self, x: usize, y: usize)
        requires
            old(self).wf(),
            !old(self).initialized,
            x < old(self).width,
            y < old(self).height,
        ensures
            final(self).wf(),
            final(self).width == old(self).width,
            final(self).height == old(self).height,
            final(self).mines == old(self).mines,
            final(self).marked_board@ == old(self).marked_board@,
            final(self).total_marked == old(self).total_marked,
            final(self).game_lost == old(self).game_lost,
            final(self).game_won == old(self).game_won,
            final(self).initialized,
            final(self).masked_board@ == old(self).masked_board@.update(
                y * old(self).width + x,
                false,
            ),
            final(self).board@.len() == old(self).board@.len(),
            count_mines(final(self).board@) == old(self).mines,
            !final(self).mine_at(x as int, y as int),
    {
        self.populate_board(x, y);

        let w = self.width;
        let h = self.height;
        proof {
            lemma_idx_bounds(w as int, h as int, x as int, y as int);
        }
        let target = y * w + x;
        self.masked_board[target] = false;

        let ghost layout = self.board@;

        let mut row: usize = 0;
        while row < h
            invariant
                row <= h,
                self.width == w,
                self.height == h,
                self.mines == old(self).mines,
                self.masked_board@ == old(self).masked_board@.update(target as int, false),
                self.marked_board@ == old(self).marked_board@,
                self.total_marked == old(self).total_marked,
                self.initialized == old(self).initialized,
                self.game_lost == old(self).game_lost,
                self.game_won == old(self).game_won,
                self.board@.len() == w * h,
                forall|i: int|
                    0 <= i < w * h ==> ((self.board@[i] == MINE) <==> (layout[i] == MINE)),
                forall|i: int| 0 <= i < w * h ==> self.board@[i] <= MINE,
                forall|a: int, b: int|
                    0 <= a < w && 0 <= b < row && #[trigger] cell_of(self.board@, w as int, a, b)
                        != MINE ==> cell_of(self.board@, w as int, a, b) == adjacent_mines(
                        layout,
                        w as int,
                        h as int,
                        a,
                        b,
                    ),
                forall|a: int, b: int|
                    0 <= a < w && row <= b < h ==> #[trigger] cell_of(self.board@, w as int, a, b)
                        == cell_of(layout, w as int, a, b),
            decreases h - row,
        {
            let mut col: usize = 0;
            while col < w
                invariant
                    col <= w,
                    self.width == w,
                    self.height == h,
                    self.mines == old(self).mines,
                    self.masked_board@ == old(self).masked_board@.update(target as int, false),
                    self.marked_board@ == old(self).marked_board@,
                    self.total_marked == old(self).total_marked,
                    self.initialized == old(self).initialized,
                    self.game_lost == old(self).game_lost,
                    self.game_won == old(self).game_won,
                    self.board@.len() == w * h,
                    forall|i: int|
                        0 <= i < w * h ==> ((self.board@[i] == MINE) <==> (layout[i] == MINE)),
                    forall|i: int| 0 <= i < w * h ==> self.board@[i] <= MINE,
                    forall|a: int, b: int|
                        0 <= a < w && 0 <= b < h && (b < row || (b == row && a < col))
                            && #[trigger] cell_of(self.board@, w as int, a, b) != MINE ==> cell_of(
                            self.board@,
                            w as int,
                            a,
                            b,
                        ) == adjacent_mines(layout, w as int, h as int, a, b),
                    forall|a: int, b: int|
                        0 <= a < w && 0 <= b < h && (b > row || (b == row && a >= col))
                            ==> #[trigger] cell_of(self.board@, w as int, a, b) == cell_of(
                            layout,
                            w as int,
                            a,
                            b,
                        ),
                decreases w - col,
            {
                proof {
                    lemma_idx_bounds(w as int, h as int, col as int, row as int);
                }
                let t = row * w + col;
                if self.board[t] != MINE {
                    let cnt = self.count_mines_surrounding(col, row);
                    proof {
                        lemma_adjacent_same_mines(
                            self.board@,
                            layout,
                            w as int,
                            h as int,
                            col as int,
                            row as int,
                        );
                    }
                    let ghost pre = self.board@;
                    self.board[t] = cnt;
                    proof {
                        lemma_grid_update(pre, w as int, h as int, col as int, row as int, cnt);
                        assert(forall|i: int|
                            0 <= i < w * h && i != t ==> self.board@[i] == pre[i]);
                    }
                }
                col = col + 1;
            }
            row = row + 1;
        }

        self.initialized = true;

        proof {
            lemma_count_mines_same(self.board@, layout);
            assert forall|a: int, b: int|
                self.in_bounds(a, b) && #[trigger] self.cell(a, b) != MINE implies self.cell(a, b)
                == adjacent_mines(
                self.board@,
                self.width as int,
                self.height as int,
                a,
                b,
            ) by {
                lemma_adjacent_same_mines(
                    self.board@,
                    layout,
                    w as int,
                    h as int,
                    a,
                    b,
                );
            }
        }
    }

    /// The mine budget minus the number of flags, saturating at zero if the
    /// player has flagged more cells than there are mines.
    pub open spec fn mines_left_spec(self) -> int {
        if self.total_marked <= self.mines {
            self.mines - self.total_marked
        } else {
            0
        }
    }

    pub fn mines_left(&self) -> (r: usize)
        ensures
            r == self.mines_left_spec(),
    {
        if self.total_marked <= self.mines {
            self.mines - self.total_marked
        } else {
            0
        }
    }

    /// Is the win condition met right now: masked cells exactly the mines?
    #[verifier::loop_isolation(false)]
    fn has_won(&self) -> (r: bool)
        requires
            self.masked_board@.len() == self.board@.len(),
        ensures
            r == all_safe_revealed(self.board@, self.masked_board@),
    {
        let n = self.board.len();
        let mut i: usize = 0;
        while i < n
            invariant
                i <= n,
                forall|j: int|
                    0 <= j < i ==> (#[trigger] self.masked_board@[j] <==> self.board@[j] == MINE),
            decreases n - i,
        {
            if self.masked_board[i] != (self.board[i] == MINE) {
                proof {
                    assert(!(self.masked_board@[i as int] <==> self.board@[i as int] == MINE));
                }
                return false;
            }
            i = i + 1;
        }
        true
    }

    /// Open every cell: the whole grid becomes visible.
    fn unmask_board(&mut self)
        ensures
            final(self).width == old(self).width,
            final(self).height == old(self).height,
            final(self).mines == old(self).mines,
            final(self).board@ == old(self).board@,
            final(self).marked_board@ == old(self).marked_board@,
            final(self).total_marked == old(self).total_marked,
            final(self).initialized == old(self).initialized,
            final(self).game_lost == old(self).game_lost,
            final(self).game_won == old(self).game_won,
            final(self).masked_board@.len() == old(self).masked_board@.len(),
            all_false(final(self).masked_board@),
    {
        let n = self.masked_board.len();
        self.masked_board = filled_bool(n, false);
    }

    /// Flag every mine cell, keeping the flag counter in step with the
    /// flag grid.
    #[verifier::loop_isolation(false)]
    fn mark_all_mines(&mut self)
        requires
            old(self).board@.len() == old(self).marked_board@.len(),
            old(self).total_marked == count_true(old(self).marked_board@),
        ensures
            final(self).width == old(self).width,
            final(self).height == old(self).height,
            final(self).mines == old(self).mines,
            final(self).board@ == old(self).board@,
            final(self).masked_board@ == old(self).masked_board@,
            final(self).initialized == old(self).initialized,
            final(self).game_lost == old(self).game_lost,
            final(self).game_won == old(self).game_won,
            final(self).marked_board@.len() == old(self).marked_board@.len(),
            forall|i: int|
                0 <= i < final(self).marked_board@.len()
                    ==> (#[trigger] final(self).marked_board@[i]
                    <==> (old(self).marked_board@[i] || old(self).board@[i] == MINE)),
            final(self).total_marked == count_true(final(self).marked_board@),
    {
        let n = self.board.len();
        let mut i: usize = 0;
        while i < n
            invariant
                i <= n,
                n == self.board@.len(),
                self.width == old(self).width,
                self.height == old(self).height,
                self.mines == old(self).mines,
                self.board@ == old(self).board@,
                self.masked_board@ == old(self).masked_board@,
                self.initialized == old(self).initialized,
                self.game_lost == old(self).game_lost,
                self.game_won == old(self).game_won,
                self.marked_board@.len() == old(self).marked_board@.len(),
                self.total_marked == count_true(self.marked_board@),
                forall|j: int|
                    0 <= j < i ==> (#[trigger] self.marked_board@[j] <==> (
                    old(self).marked_board@[j] || self.board@[j] == MINE)),
                forall|j: int|
                    i <= j < n ==> self.marked_board@[j] == old(self).marked_board@[j],
            decreases n - i,
        {
            if self.board[i] == MINE && !self.marked_board[i] {
                let ghost pre = self.marked_board@;
                self.marked_board[i] = true;
                proof {
                    lemma_count_true_update(pre, i as int, true);
                    lemma_count_true_le_len(self.marked_board@);
                }
                self.total_marked = self.total_marked + 1;
            }
            i = i + 1;
        }
    }

    /// Apply a reveal at 0-based `(x, y)` on an initialized, in-progress
    /// board whose cell is not flagged: unmask the cell and settle the
    /// outcome (loss on a mine, win when only mines stay masked).
    fn update_game_state(&mut self, x: usize, y: usize)
        requires
            old(self).wf(),
            old(self).initialized,
            !old(self).game_lost,
            !old(self).game_won,
            x < old(self).width,
            y < old(self).height,
            !old(self).marked_at(x as int, y as int),
        ensures
            final(self).wf(),
            reveal_transition(*old(self), *final(self), x as int, y as int),
    {
        proof {
            lemma_idx_bounds(
                self.width as int,
                self.height as int,
                x as int,
                y as int,
            );
        }
        let t = y * self.width + x;
        if self.board[t] == MINE {
            self.game_lost = true;
            self.unmask_board();
            proof {
                lemma_adjacency_same_board(*old(self), *self);
            }
            return;
        }

        self.masked_board[t] = false;

        if self.has_won() {
            self.game_won = true;
            self.unmask_board();
            self.mark_all_mines();
        }
        proof {
            lemma_adjacency_same_board(*old(self), *self);
        }
    }

    /// Why a reveal at 1-based `(x, y)` would be rejected, or `None` when
    /// it is a legal move. The checks run in this order: bounds, already
    /// revealed, flagged.
    pub open spec fn play_error(self, x: usize, y: usize) -> Option<BoardError> {
        if !(1 <= x <= self.width && 1 <= y <= self.height) {
            Some(BoardError::InvalidMove)
        } else if !self.masked_at(x - 1, y - 1) {
            Some(BoardError::MoveAlreadyPlayed)
        } else if self.marked_at(x - 1, y - 1) {
            Some(BoardError::MoveAlreadyMarked)
        } else {
            None
        }
    }

    /// Reveal the cell at 1-based `(x, y)`.
    ///
    /// A rejected move returns exactly the error `play_error` names and
    /// leaves the board untouched. A legal move first places the mines if
    /// none are placed yet (the revealed cell is kept mine-free), then
    /// reveals the cell as `reveal_transition` describes. Revealing a mine
    /// is a legal move whose outcome is a lost game, not an error.
    pub fn play(&mut self, x: usize, y: usize) -> (r: Result<(), BoardError>)
        requires
            old(self).wf(),
        ensures
            final(self).wf(),
            r is Err ==> Some(r->Err_0) == old(self).play_error(x, y)
                && *final(self) == *old(self),
            r is Ok ==> old(self).play_error(x, y) is None && reveal_transition(
                *old(self),
                *final(self),
                x - 1,
                y - 1,
            ),
    {
        if 1 > x || x > self.width || 1 > y || y > self.height {
            return Err(BoardError::InvalidMove);
        }

        let x0 = x - 1;
        let y0 = y - 1;
        proof {
            lemma_idx_bounds(self.width as int, self.height as int, x0 as int, y0 as int);
        }
        let t = y0 * self.width + x0;

        if !self.masked_board[t] {
            return Err(BoardError::MoveAlreadyPlayed);
        }
        if self.marked_board[t] {
            return Err(BoardError::MoveAlreadyMarked);
        }

        let ghost pre = *self;
        if !self.initialized {
            self.init_board(x0, y0);
        }
        let ghost mid = *self;

        self.update_game_state(x0, y0);

        proof {
            if !pre.initialized {
                assert(mid.masked_board@.update(t as int, false) =~= pre.masked_board@.update(
                    t as int,
                    false,
                ));
            }
        }
        Ok(())
    }

    /// Why a flag toggle at 1-based `(x, y)` would be rejected, or `None`
    /// when it is legal. The checks run in this order: bounds, board not
    /// yet initialized, already revealed.
    pub open spec fn toggle_error(self, x: usize, y: usize) -> Option<BoardError> {
        if !(1 <= x <= self.width && 1 <= y <= self.height) {
            Some(BoardError::InvalidMove)
        } else if !self.initialized {
            Some(BoardError::GameNotInitialized)
        } else if !self.masked_at(x - 1, y - 1) {
            Some(BoardError::MoveAlreadyPlayed)
        } else {
            None
        }
    }

    /// Toggle the flag on the masked cell at 1-based `(x, y)`.
    ///
    /// A rejected toggle returns exactly the error `toggle_error` names and
    /// leaves the board untouched; a legal one flips that flag bit and moves
    /// the flag counter with it, as `toggle_transition` describes.
    pub fn toggle_mark(&mut self, x: usize, y: usize) -> (r: Result<(), BoardError>)
        requires
            old(self).wf(),
        ensures
            final(self).wf(),
            r is Err ==> Some(r->Err_0) == old(self).toggle_error(x, y)
                && *final(self) == *old(self),
            r is Ok ==> old(self).toggle_error(x, y) is None && toggle_transition(
                *old(self),
                *final(self),
                x - 1,
                y - 1,
            ),
    {
        if 1 > x || x > self.width || 1 > y || y > self.height {
            return Err(BoardError::InvalidMove);
        }

        let x0 = x - 1;
        let y0 = y - 1;

        if !self.initialized {
            return Err(BoardError::GameNotInitialized);
        }

        proof {
            lemma_idx_bounds(self.width as int, self.height as int, x0 as int, y0 as int);
        }
        let t = y0 * self.width + x0;

        if !self.masked_board[t] {
            return Err(BoardError::MoveAlreadyPlayed);
        }

        let ghost pre = self.marked_board@;
        if self.marked_board[t] {
            self.marked_board[t] = false;
            proof {
                lemma_count_true_update(pre, t as int, false);
                lemma_count_true_nonneg(self.marked_board@);
            }
            self.total_marked = self.total_marked - 1;
        } else {
            self.marked_board[t] = true;
            proof {
                lemma_count_true_update(pre, t as int, true);
                lemma_count_true_le_len(self.marked_board@);
            }
            self.total_marked = self.total_marked + 1;
        }
        proof {
            lemma_adjacency_same_board(*old(self), *self);
        }
        Ok(())
    }

    pub open spec fn is_game_over_spec(self) -> bool {
        self.game_lost || self.game_won
    }

    /// The one-character glyph a cell shows. The rules apply in priority
    /// order: a flag wins over everything, a masked cell is blank, a
    /// revealed mine shows the mine glyph, and a revealed safe cell shows
    /// its adjacency count as a digit.
    pub open spec fn glyph(self, x: int, y: int) -> char {
        if self.marked_at(x, y) {
            '⚑'
        } else if self.masked_at(x, y) {
            ' '
        } else if self.mine_at(x, y) {
            '✴'
        } else {
            digit_char(self.cell(x, y) as int)
        }
    }

    /// The cells of row `y` up to column `n`, each rendered as `| g `.
    pub open spec fn row_prefix(self, y: int, n: int) -> Seq<char>
        decreases n,
    {
        if n <= 0 {
            Seq::empty()
        } else {
            self.row_prefix(y, n - 1) + seq!['|', ' ', self.glyph(n - 1, y), ' ']
        }
    }

    /// The first `n` rows of the snapshot, each closed by `|`, a newline,
    /// and a delimiter line.
    pub open spec fn rows_prefix(self, n: int) -> Seq<char>
        decreases n,
    {
        if n <= 0 {
            Seq::empty()
        } else {
            self.rows_prefix(n - 1) + self.row_prefix(n - 1, self.width as int) + seq!['|', '\n']
                + dashes(self.height as int) + seq!['\n']
        }
    }

    /// The whole textual snapshot: a delimiter line, then every row.
    pub open spec fn render_spec(self) -> Seq<char> {
        dashes(self.height as int) + seq!['\n'] + self.rows_prefix(self.height as int)
    }

    /// The glyph of the cell at 0-based `(x, y)`, as a one-character string.
    fn glyph_str(&self, x: usize, y: usize) -> (r: &'static str)
        requires
            self.wf(),
            x < self.width,
            y < self.height,
        ensures
            r@ == seq![self.glyph(x as int, y as int)],
    {
        proof {
            lemma_idx_bounds(self.width as int, self.height as int, x as int, y as int);
        }
        let t = y * self.width + x;
        if self.marked_board[t] {
            proof {
                reveal_strlit("⚑");
                assert("⚑"@ =~= seq!['⚑']);
            }
            "⚑"
        } else if self.masked_board[t] {
            proof {
                reveal_strlit(" ");
                assert(" "@ =~= seq![' ']);
            }
            " "
        } else {
            let v = self.board[t];
            if v == MINE {
                proof {
                    reveal_strlit("✴");
                    assert("✴"@ =~= seq!['✴']);
                }
                "✴"
            } else if v == 0 {
                proof {
                    reveal_strlit("0");
                    assert("0"@ =~= seq!['0']);
                }
                "0"
            } else if v == 1 {
                proof {
                    reveal_strlit("1");
                    assert("1"@ =~= seq!['1']);
                }
                "1"
            } else if v == 2 {
                proof {
                    reveal_strlit("2");
                    assert("2"@ =~= seq!['2']);
                }
                "2"
            } else if v == 3 {
                proof {
                    reveal_strlit("3");
                    assert("3"@ =~= seq!['3']);
                }
                "3"
            } else if v == 4 {
                proof {
                    reveal_strlit("4");
                    assert("4"@ =~= seq!['4']);
                }
                "4"
            } else if v == 5 {
                proof {
                    reveal_strlit("5");
                    assert("5"@ =~= seq!['5']);
                }
                "5"
            } else if v == 6 {
                proof {
                    reveal_strlit("6");
                    assert("6"@ =~= seq!['6']);
                }
                "6"
            } else if v == 7 {
                proof {
                    reveal_strlit("7");
                    assert("7"@ =~= seq!['7']);
                }
                "7"
            } else {
                proof {
                    reveal_strlit("8");
                    assert("8"@ =~= seq!['8']);
                }
                "8"
            }
        }
    }

    /// The textual snapshot of the board, row by row between delimiter
    /// lines, exactly as `render_spec` lays it out.
    #[verifier::loop_isolation(false)]
    pub fn render(&self) -> (r: String)
        requires
            self.wf(),
        ensures
            r@ == self.render_spec(),
    {
        let w = self.width;
        let h = self.height;
        let delim = make_delim(h);
        let mut out = String::new();
        out.append(delim.as_str());
        out.append("\n");
        proof {
            reveal_strlit("\n");
            assert(out@ =~= dashes(h as int) + seq!['\n'] + self.rows_prefix(0));
        }
        let mut y: usize = 0;
        while y < h
            invariant
                y <= h,
                out@ == dashes(h as int) + seq!['\n'] + self.rows_prefix(y as int),
            decreases h - y,
        {
            let mut x: usize = 0;
            while x < w
                invariant
                    x <= w,
                    y < h,
                    out@ == dashes(h as int) + seq!['\n'] + self.rows_prefix(y as int)
                        + self.row_prefix(y as int, x as int),
                decreases w - x,
            {
                out.append("| ");
                out.append(self.glyph_str(x, y));
                out.append(" ");
                proof {
                    reveal_strlit("| ");
                    reveal_strlit(" ");
                    assert(out@ =~= dashes(h as int) + seq!['\n'] + self.rows_prefix(y as int)
                        + self.row_prefix(y as int, x as int + 1));
                }
                x = x + 1;
            }
            out.append("|\n");
            out.append(delim.as_str());
            out.append("\n");
            proof {
                reveal_strlit("|\n");
                reveal_strlit("\n");
                assert(out@ =~= dashes(h as int) + seq!['\n'] + self.rows_prefix(y as int + 1));
            }
            y = y + 1;
        }
        out
    }

    pub fn is_game_over(&self) -> (r: bool)
        ensures
            r == self.is_game_over_spec(),
    {
        self.game_lost || self.game_won
    }
}

} // verus!


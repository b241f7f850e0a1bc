use vstd::prelude::*;

use crate::cell::{cell_in_bounds, cell_index, cell_of_index, lemma_cell_of_index, Cell};

verus! {

/// Number of free (unoccupied) slots of a board.
pub open spec fn count_free(board: Seq<bool>) -> nat
    decreases board.len(),
{
    if board.len() == 0 {
        0
    } else {
        count_free(board.drop_last()) + if board.last() {
            0nat
        } else {
            1nat
        }
    }
}

/// Slot `k` of the board is free and exactly `n` free slots come before it.
pub open spec fn is_nth_free(board: Seq<bool>, k: int, n: int) -> bool {
    &&& 0 <= k < board.len()
    &&& !board[k]
    &&& count_free(board.take(k)) == n
}

/// The reward cell chosen by the draw `draw`: the free cell whose rank among
/// the free cells, in board order, is `draw` modulo their number; none when
/// every cell is occupied.
pub open spec fn reward_for_draw(board: Seq<bool>, width: int, draw: int, r: Option<Cell>) -> bool {
    if count_free(board) == 0 {
        r is None
    } else {
        exists|k: int|
            #[trigger] is_nth_free(board, k, draw % (count_free(board) as int)) && r == Some(
                cell_of_index(k, width),
            )
    }
}

/// A board of `size` slots that keeps the old board's slots position by
/// position, as far as both reach, and is free beyond.
pub open spec fn resized_board(board: Seq<bool>, size: nat) -> Seq<bool> {
    Seq::new(size, |i: int| if i < board.len() { board[i] } else { false })
}

/// The last slot of row `row` on a board of the given width is occupied.
pub open spec fn row_end_occupied(board: Seq<bool>, width: int, row: int) -> bool {
    board[row * width + width - 1]
}

/// Some row's last slot is occupied.
pub open spec fn right_column_occupied(board: Seq<bool>, width: int, height: int) -> bool {
    exists|row: int| 0 <= row < height && #[trigger] row_end_occupied(board, width, row)
}

/// What holds of a reward cell freshly drawn on `board`, whatever the draw.
pub open spec fn fresh_reward(board: Seq<bool>, width: int, height: int, r: Option<Cell>) -> bool {
    &&& (r is None <==> count_free(board) == 0)
    &&& r matches Some(c) ==> cell_in_bounds(c, width, height) && !board[cell_index(c, width)]
}

/// `w` is `v` resized to `width` by `height`: the board copied by linear
/// index, and a placed reward cell drawn anew on the new board.
pub open spec fn resized(v: World, w: World, width: nat, height: nat) -> bool {
    &&& w.wf()
    &&& w.width_spec() == width
    &&& w.height_spec() == height
    &&& w.board_spec() == resized_board(v.board_spec(), width * height)
    &&& v.reward_spec() is None ==> w.reward_spec() is None
    &&& v.reward_spec() is Some ==> fresh_reward(
        w.board_spec(),
        width as int,
        height as int,
        w.reward_spec(),
    )
}

/// `w` is `v` after a request to resize it to `width` columns: unchanged when
/// the request shrinks it while the last column of some row is occupied,
/// else resized.
pub open spec fn width_set(v: World, w: World, width: nat) -> bool {
    if width < v.width_spec() && right_column_occupied(
        v.board_spec(),
        v.width_spec() as int,
        v.height_spec() as int,
    ) {
        w == v
    } else {
        resized(v, w, width, v.height_spec())
    }
}

/// Relies on rand's `Rng::gen_range` with the thread-local generator: a value
/// in `0..bound`. It panics on an empty range, which `requires` leaves out.
#[verifier::external_body]
pub(crate) fn random_below(bound: usize) -> (r: usize)
    requires
        bound > 0,
    ensures
        r < bound,
{
    rand::Rng::gen_range(&mut rand::thread_rng(), 0..bound)
}

/// The grid: its dimensions, the occupancy board and the reward cell.
pub struct World {
    pub(crate) width: usize,
    pub(crate) height: usize,
    pub(crate) size: usize,
    pub(crate) board: Vec<bool>,
    pub(crate) reward_cell: Option<Cell>,
}

impl World {
    pub open(crate) spec fn width_spec(&self) -> nat {
        self.width as nat
    }

    pub open(crate) spec fn height_spec(&self) -> nat {
        self.height as nat
    }

    pub open(crate) spec fn board_spec(&self) -> Seq<bool> {
        self.board@
    }

    pub open(crate) spec fn reward_spec(&self) -> Option<Cell> {
        self.reward_cell
    }

    /// The size matches the dimensions, the board has one slot per cell, and
    /// a reward cell lies on the grid.
    pub open(crate) spec fn wf(&self) -> bool {
        &&& self.size == self.width * self.height
        &&& self.board@.len() == self.size
        &&& self.reward_cell matches Some(c) ==> cell_in_bounds(
            c,
            self.width as int,
            self.height as int,
        )
    }

    /// An empty grid of `width` by `height` cells with no reward cell.
    pub fn new(width: usize, height: usize) -> (r: World)
        requires
            width * height <= usize::MAX,
        ensures
            r.wf(),
            r.width_spec() == width,
            r.height_spec() == height,
            r.board_spec() == Seq::new((width * height) as nat, |i: int| false),
            r.reward_spec() is None,
    {
        let size = width * height;
        let mut board: Vec<bool> = Vec::new();
        let mut i: usize = 0;
        while i < size
            invariant
                i <= size,
                board@ == Seq::new(i as nat, |j: int| false),
            decreases size - i,
        {
            board.push(false);
            i += 1;
        }
        World { width, height, size, board, reward_cell: None }
    }

    pub fn width(&self) -> (r: usize)
        ensures
            r == self.width_spec(),
    {
        self.width
    }

    pub fn height(&self) -> (r: usize)
        ensures
            r == self.height_spec(),
    {
        self.height
    }

    /// The occupancy board, by linear index.
    pub fn board(&self) -> (r: &[bool])
        ensures
            r@ == self.board_spec(),
    {
        self.board.as_slice()
    }

    /// Number of free cells on the board.
    pub fn free_cell_count(&self) -> (r: usize)
        requires
            self.wf(),
        ensures
            r == count_free(self.board_spec()),
    {
        let mut n: usize = 0;
        let mut k: usize = 0;
        while k < self.board.len()
            invariant
                k <= self.board@.len(),
                n == count_free(self.board@.take(k as int)),
                n <= k,
            decreases self.board@.len() - k,
        {
            proof {
                assert(self.board@.take(k + 1).drop_last() =~= self.board@.take(k as int));
            }
            if !self.board[k] {
                n += 1;
            }
            k += 1;
        }
        proof {
            assert(self.board@.take(k as int) =~= self.board@);
        }
        n
    }

    /// The free cell with `n` free cells before it in board order.
    fn nth_free_cell(&self, n: usize) -> (r: Cell)
        requires
            self.wf(),
            n < count_free(self.board_spec()),
        ensures
            exists|k: int| #[trigger]
                is_nth_free(self.board_spec(), k, n as int) && r == cell_of_index(
                    k,
                    self.width_spec() as int,
                ),
            cell_in_bounds(r, self.width_spec() as int, self.height_spec() as int),
            !self.board_spec()[cell_index(r, self.width_spec() as int)],
    {
        let mut seen: usize = 0;
        let mut k: usize = 0;
        while k < self.board.len()
            invariant
                self.wf(),
                k <= self.board@.len(),
                seen == count_free(self.board@.take(k as int)),
                seen <= n,
                n < count_free(self.board@),
            decreases self.board@.len() - k,
        {
            proof {
                assert(self.board@.take(k + 1).drop_last() =~= self.board@.take(k as int));
            }
            if !self.board[k] {
                if seen == n {
                    let c = Cell::from_idx(k, self);
                    assert(is_nth_free(self.board_spec(), k as int, n as int));
                    return c;
                }
                seen += 1;
            }
            k += 1;
        }
        proof {
            assert(self.board@.take(k as int) =~= self.board@);
        }
        Cell { x: 0, y: 0 }
    }

    /// The reward cell that the draw `draw` selects among the free cells.
    pub fn reward_from_draw(&self, draw: usize) -> (r: Option<Cell>)
        requires
            self.wf(),
        ensures
            reward_for_draw(self.board_spec(), self.width_spec() as int, draw as int, r),
            fresh_reward(self.board_spec(), self.width_spec() as int, self.height_spec() as int, r),
    {
        let free = self.free_cell_count();
        if free == 0 {
            None
        } else {
            Some(self.nth_free_cell(draw % free))
        }
    }

    /// A reward cell drawn at random among the free cells; none when every
    /// cell is occupied.
    fn generate_reward_cell(&self) -> (r: Option<Cell>)
        requires
            self.wf(),
        ensures
            fresh_reward(self.board_spec(), self.width_spec() as int, self.height_spec() as int, r),
    {
        let free = self.free_cell_count();
        if free == 0 {
            None
        } else {
            let draw = random_below(free);
            Some(self.nth_free_cell(draw))
        }
    }

    /// Resizes the grid to `width` columns. The shrink is refused, and
    /// nothing changes, when the last column of some row is occupied.
    /// Otherwise the board keeps its slots position by position and a placed
    /// reward cell is drawn anew.
    pub fn set_world_width(&mut self, width: usize)
        requires
            old(self).wf(),
            width * old(self).height_spec() <= usize::MAX,
        ensures
            width_set(*old(self), *final(self), width as nat),
    {
        if width < self.width {
            let mut row: usize = 0;
            while row < self.height
                invariant
                    self.wf(),
                    *self == *old(self),
                    width < self.width,
                    row <= self.height,
                    forall|r: int|
                        0 <= r < row ==> !#[trigger] row_end_occupied(
                            self.board@,
                            self.width as int,
                            r,
                        ),
                decreases self.height - row,
            {
                assert(row * self.width + self.width - 1 < self.width * self.height) by (
                nonlinear_arith)
                    requires
                        row < self.height,
                        0 < self.width,
                ;
                if self.board[row * self.width + self.width - 1] {
                    assert(row_end_occupied(self.board@, self.width as int, row as int));
                    return;
                }
                row += 1;
            }
        }
        self.width = width;
        self.size = self.width * self.height;
        self.redeclare_board();
        self.regenerate_reward_cell_if_exist();
    }

    /// Resizes the grid to `height` rows, without any occupancy check. The
    /// board keeps its slots position by position and a placed reward cell is
    /// drawn anew.
    pub fn set_world_height(&mut self, height: usize)
        requires
            old(self).wf(),
            old(self).width_spec() * height <= usize::MAX,
        ensures
            resized(*old(self), *final(self), old(self).width_spec(), height as nat),
    {
        self.height = height;
        self.size = self.width * self.height;
        self.redeclare_board();
        self.regenerate_reward_cell_if_exist();
    }

    fn regenerate_reward_cell_if_exist(&mut self)
        requires
            old(self).size == old(self).width * old(self).height,
            old(self).board@.len() == old(self).size,
        ensures
            final(self).wf(),
            final(self).width == old(self).width,
            final(self).height == old(self).height,
            final(self).board == old(self).board,
            old(self).reward_cell is None ==> final(self).reward_cell is None,
            old(self).reward_cell is Some ==> fresh_reward(
                final(self).board@,
                final(self).width as int,
                final(self).height as int,
                final(self).reward_cell,
            ),
    {
        match self.reward_cell {
            None => {},
            Some(_) => {
                self.reward_cell = None;
                self.reward_cell = self.generate_reward_cell();
            },
        }
    }

    /// Rebuilds the board at the current size, copying the old slots by
    /// linear index.
    fn redeclare_board(&mut self)
        ensures
            final(self).board@ == resized_board(old(self).board@, old(self).size as nat),
            final(self).width == old(self).width,
            final(self).height == old(self).height,
            final(self).size == old(self).size,
            final(self).reward_cell == old(self).reward_cell,
    {
        let mut new_board: Vec<bool> = Vec::new();
        let mut i: usize = 0;
        while i < self.size
            invariant
                i <= self.size,
                new_board@ =~= resized_board(self.board@, i as nat),
            decreases self.size - i,
        {
            if i < self.board.len() {
                new_board.push(self.board[i]);
            } else {
                new_board.push(false);
            }
            i += 1;
        }
        self.board = new_board;
    }

    /// Linear index of the reward cell, or -1 when none is placed.
    pub fn get_reward_cell_idx(&self) -> (r: i32)
        requires
            self.wf(),
        ensures
            r == match self.reward_spec() {
                None => -1i32,
                Some(c) => cell_index(c, self.width_spec() as int) as i32,
            },
    {
        match &self.reward_cell {
            None => -1,
            Some(cell) => cell.to_index(self) as i32,
        }
    }
}

} // verus!

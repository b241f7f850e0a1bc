use vstd::prelude::*;

use crate::world::World;

verus! {

/// Heading of the snake.
#[derive(Clone, Copy, Debug, PartialEq, Eq, Structural)]
pub enum Direction {
    Up,
    Right,
    Down,
    Left,
}

/// Status of the simulation. Only `Running` advances it.
#[derive(Clone, Copy, Debug, PartialEq, Eq, Structural)]
pub enum GameState {
    Stopped,
    Running,
    Won,
    Lost,
}

/// A coordinate pair on the grid.
#[derive(Clone, Copy, Debug, PartialEq, Eq, Structural)]
pub struct Cell {
    pub x: usize,
    pub y: usize,
}

/// Linear board index of `c` on a grid of the given width.
pub open spec fn cell_index(c: Cell, width: int) -> int {
    c.y * width + c.x
}

/// The cell at linear index `idx` on a grid of the given width.
pub open spec fn cell_of_index(idx: int, width: int) -> Cell {
    Cell { x: (idx % width) as usize, y: (idx / width) as usize }
}

/// `c` lies on a grid of the given dimensions.
pub open spec fn cell_in_bounds(c: Cell, width: int, height: int) -> bool {
    c.x < width && c.y < height
}

/// A cell on the grid has a linear index on the board.
pub proof fn lemma_index_in_board(c: Cell, width: int, height: int)
    requires
        cell_in_bounds(c, width, height),
    ensures
        0 <= cell_index(c, width) < width * height,
{
    let x = c.x as int;
    let y = c.y as int;
    assert(0 <= y * width + x < width * height) by (nonlinear_arith)
        requires
            0 <= x < width,
            0 <= y < height,
    ;
}

/// The cell of a board index lies on the grid and has that index.
pub proof fn lemma_cell_of_index(idx: int, width: int, height: int)
    requires
        0 <= idx < width * height,
        0 <= width <= usize::MAX,
        0 <= idx <= usize::MAX,
        height >= 0,
    ensures
        cell_in_bounds(cell_of_index(idx, width), width, height),
        cell_index(cell_of_index(idx, width), width) == idx,
{
    assert(width > 0) by (nonlinear_arith)
        requires
            0 <= idx < width * height,
            width >= 0,
            height >= 0,
    ;
    vstd::arithmetic::div_mod::lemma_fundamental_div_mod(idx, width);
    vstd::arithmetic::div_mod::lemma_mod_pos_bound(idx, width);
    vstd::arithmetic::div_mod::lemma_div_is_ordered_by_denominator(idx, 1, width);
    assert(idx / 1 == idx);
    vstd::arithmetic::div_mod::lemma_multiply_divide_lt(idx, width, height);
    assert(idx / width >= 0) by {
        vstd::arithmetic::div_mod::lemma_div_pos_is_pos(idx, width);
    }
    assert(width * (idx / width) == (idx / width) * width) by (nonlinear_arith);
}

impl Cell {
    pub fn x(&self) -> (r: usize)
        ensures
            r == self.x,
    {
        self.x
    }

    pub fn y(&self) -> (r: usize)
        ensures
            r == self.y,
    {
        self.y
    }

    /// Linear index of this cell on `world`'s board.
    pub fn to_index(&self, world: &World) -> (r: usize)
        requires
            world.wf(),
            cell_in_bounds(*self, world.width_spec() as int, world.height_spec() as int),
        ensures
            r == cell_index(*self, world.width_spec() as int),
            r < world.board_spec().len(),
    {
        proof {
            lemma_index_in_board(*self, world.width_spec() as int, world.height_spec() as int);
        }
        self.y * world.width() + self.x
    }

    /// The cell at linear index `idx` on `world`'s board.
    pub fn from_idx(idx: usize, world: &World) -> (r: Cell)
        requires
            world.wf(),
            idx < world.board_spec().len(),
        ensures
            r == cell_of_index(idx as int, world.width_spec() as int),
            cell_in_bounds(r, world.width_spec() as int, world.height_spec() as int),
            cell_index(r, world.width_spec() as int) == idx,
    {
        proof {
            lemma_cell_of_index(idx as int, world.width_spec() as int, world.height_spec() as int);
        }
        let w = world.width();
        Cell { y: idx / w, x: idx % w }
    }

    /// Coordinate equality.
    pub fn equal(&self, other: &Cell) -> (r: bool)
        ensures
            r == (*self == *other),
    {
        self.x == other.x && self.y == other.y
    }
}

} // verus!

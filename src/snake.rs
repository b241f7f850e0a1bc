use vstd::prelude::*;

use crate::cell::{cell_in_bounds, cell_index, cell_of_index, Cell, Direction, GameState};
use crate::world::{random_below, reward_for_draw, width_set, resized, World};

verus! {

/// The cell one step from `c` in direction `d` on a toroidal grid.
pub open spec fn step_cell(c: Cell, d: Direction, width: int, height: int) -> Cell {
    match d {
        Direction::Up => Cell { x: c.x, y: ((c.y - 1) % height) as usize },
        Direction::Down => Cell { x: c.x, y: ((c.y + 1) % height) as usize },
        Direction::Right => Cell { x: ((c.x + 1) % width) as usize, y: c.y },
        Direction::Left => Cell { x: ((c.x - 1) % width) as usize, y: c.y },
    }
}

/// The body after one tick: the old body without its last cell, shifted one
/// place back, with the new head written in front unless the head collided
/// (the front then keeps the old head), and that last cell appended again
/// when the snake grows.
pub open spec fn moved_body(body: Seq<Cell>, head: Cell, grow: bool, collided: bool) -> Seq<Cell> {
    let front = if collided {
        body[0]
    } else {
        head
    };
    let shifted = seq![front] + body.drop_last();
    if grow {
        shifted.push(body.last())
    } else {
        shifted
    }
}

/// The board after one tick: the tail's slot cleared, then the new head's
/// slot marked unless it was already occupied (a collision), then the tail's
/// slot marked again when the snake grows.
pub open spec fn moved_board(board: Seq<bool>, tail: int, head: int, grow: bool) -> Seq<bool> {
    let cleared = board.update(tail, false);
    let headed = if cleared[head] {
        cleared
    } else {
        cleared.update(head, true)
    };
    if grow {
        headed.update(tail, true)
    } else {
        headed
    }
}

/// `t` is `s` after one tick in which a reward cell, if one had to be drawn,
/// was chosen by `draw`.
pub open spec fn ticked(s: Snake, t: Snake, draw: int) -> bool {
    if s.state_spec() != GameState::Running {
        t == s
    } else {
        let w = s.world_spec();
        let width = w.width_spec() as int;
        let head = s.next_head(s.direction_spec());
        let grow = w.reward_spec() == Some(head);
        let tail = cell_index(s.body_spec().last(), width);
        let cleared = w.board_spec().update(tail, false);
        let collided = cleared[cell_index(head, width)];
        &&& t.wf()
        &&& t.direction_spec() == s.direction_spec()
        &&& t.world_spec().width_spec() == w.width_spec()
        &&& t.world_spec().height_spec() == w.height_spec()
        &&& if w.reward_spec() is None || grow {
            reward_for_draw(w.board_spec(), width, draw, t.world_spec().reward_spec())
        } else {
            t.world_spec().reward_spec() == w.reward_spec()
        }
        &&& t.body_spec() == moved_body(s.body_spec(), head, grow, collided)
        &&& t.world_spec().board_spec() == moved_board(
            w.board_spec(),
            tail,
            cell_index(head, width),
            grow,
        )
        &&& t.state_spec() == if collided {
            GameState::Lost
        } else {
            GameState::Running
        }
    }
}

/// Some body cell lies at or beyond column `width` or row `height`, that is,
/// in the part of the grid that a resize to those dimensions removes.
pub open spec fn body_in_removed_zone(body: Seq<Cell>, width: int, height: int) -> bool {
    exists|i: int|
        0 <= i < body.len() && (#[trigger] body[i].x >= width || body[i].y >= height)
}

/// `t` is `s` after a resize request that its body permits: the body, heading
/// and status are kept, and the index cache follows the new width.
pub open spec fn resize_kept_snake(s: Snake, t: Snake) -> bool {
    &&& t.wf()
    &&& t.body_spec() == s.body_spec()
    &&& t.direction_spec() == s.direction_spec()
    &&& t.state_spec() == s.state_spec()
}

/// Steps one coordinate up or down by one, modulo `bound`.
fn wrap_step(v: usize, up: bool, bound: usize) -> (r: usize)
    requires
        v < bound,
    ensures
        r == (if up {
            (v + 1) % (bound as int)
        } else {
            (v - 1) % (bound as int)
        }),
        r < bound,
{
    if up {
        if v + 1 == bound {
            proof {
                vstd::arithmetic::div_mod::lemma_fundamental_div_mod_converse(
                    v + 1,
                    bound as int,
                    1,
                    0,
                );
            }
            0
        } else {
            proof {
                vstd::arithmetic::div_mod::lemma_fundamental_div_mod_converse(
                    v + 1,
                    bound as int,
                    0,
                    v + 1,
                );
            }
            v + 1
        }
    } else {
        if v == 0 {
            proof {
                vstd::arithmetic::div_mod::lemma_fundamental_div_mod_converse(
                    -1,
                    bound as int,
                    -1,
                    bound - 1,
                );
            }
            bound - 1
        } else {
            proof {
                vstd::arithmetic::div_mod::lemma_fundamental_div_mod_converse(
                    v - 1,
                    bound as int,
                    0,
                    v - 1,
                );
            }
            v - 1
        }
    }
}

/// The snake: its body (head first), the board index of each body cell, its
/// heading, the game's status and the grid it owns.
pub struct Snake {
    pub(crate) body: Vec<Cell>,
    pub(crate) idx_vec: Vec<usize>,
    pub(crate) direction: Direction,
    pub(crate) world: World,
    pub game_state: GameState,
}

impl Snake {
    pub open(crate) spec fn body_spec(&self) -> Seq<Cell> {
        self.body@
    }

    pub open(crate) spec fn cells_spec(&self) -> Seq<usize> {
        self.idx_vec@
    }

    pub open(crate) spec fn direction_spec(&self) -> Direction {
        self.direction
    }

    pub open(crate) spec fn world_spec(&self) -> World {
        self.world
    }

    pub open(crate) spec fn state_spec(&self) -> GameState {
        self.game_state
    }

    /// The world is well formed, the body is not empty, every body cell lies
    /// on the grid, and the index cache holds each body cell's board index.
    pub open(crate) spec fn wf(&self) -> bool {
        &&& self.world.wf()
        &&& self.body@.len() >= 1
        &&& self.idx_vec@.len() == self.body@.len()
        &&& forall|i: int|
            0 <= i < self.body@.len() ==> cell_in_bounds(
                #[trigger] self.body@[i],
                self.world.width as int,
                self.world.height as int,
            )
        &&& forall|i: int|
            0 <= i < self.body@.len() ==> #[trigger] self.idx_vec@[i] == cell_index(
                self.body@[i],
                self.world.width as int,
            )
    }

    /// The cell the head would move to under direction `d`.
    pub open(crate) spec fn next_head(&self, d: Direction) -> Cell {
        step_cell(
            self.body@[0],
            d,
            self.world.width as int,
            self.world.height as int,
        )
    }

    /// A snake of `initial_length` cells (at least one) at consecutive board
    /// indices from `spawn_index`, wrapping at the end of the board, heading
    /// up and stopped.
    pub fn new(spawn_index: usize, initial_length: usize, world: World) -> (r: Snake)
        requires
            world.wf(),
            initial_length < world.width_spec(),
            spawn_index < world.board_spec().len(),
        ensures
            r.wf(),
            r.world_spec() == world,
            r.direction_spec() == Direction::Up,
            r.state_spec() == GameState::Stopped,
            r.body_spec().len() == if initial_length == 0 {
                1
            } else {
                initial_length as int
            },
            forall|i: int|
                0 <= i < r.body_spec().len() ==> #[trigger] r.body_spec()[i] == cell_of_index(
                    (spawn_index + i) % (world.board_spec().len() as int),
                    world.width_spec() as int,
                ),
    {
        let size = world.size;
        let ghost w = world.width as int;
        let ghost h = world.height as int;
        assert(w <= size) by (nonlinear_arith)
            requires
                0 <= spawn_index < size,
                size == w * h,
                w >= 0,
                h >= 0,
        ;
        let mut body: Vec<Cell> = Vec::new();
        let mut idx_vec: Vec<usize> = Vec::new();
        let first = Cell::from_idx(spawn_index, &world);
        proof {
            vstd::arithmetic::div_mod::lemma_small_mod(spawn_index as nat, size as nat);
        }
        body.push(first);
        idx_vec.push(spawn_index);
        let mut i: usize = 1;
        while i < initial_length
            invariant
                world.wf(),
                size == world.size,
                w == world.width,
                w <= size,
                spawn_index < size,
                initial_length < w,
                1 <= i,
                i <= initial_length || i == 1,
                body@.len() == i,
                idx_vec@.len() == i,
                forall|j: int|
                    0 <= j < i ==> #[trigger] body@[j] == cell_of_index(
                        (spawn_index + j) % (size as int),
                        w,
                    ) && cell_in_bounds(body@[j], w, world.height as int),
                forall|j: int|
                    0 <= j < i ==> #[trigger] idx_vec@[j] == cell_index(body@[j], w),
            decreases initial_length - i,
        {
            let idx = if i < size - spawn_index {
                proof {
                    vstd::arithmetic::div_mod::lemma_fundamental_div_mod_converse(
                        spawn_index + i,
                        size as int,
                        0,
                        spawn_index + i,
                    );
                }
                spawn_index + i
            } else {
                proof {
                    vstd::arithmetic::div_mod::lemma_fundamental_div_mod_converse(
                        spawn_index + i,
                        size as int,
                        1,
                        i - (size - spawn_index),
                    );
                }
                i - (size - spawn_index)
            };
            let cell = Cell::from_idx(idx, &world);
            body.push(cell);
            idx_vec.push(idx);
            i += 1;
        }
        Snake { body, idx_vec, direction: Direction::Up, world, game_state: GameState::Stopped }
    }

    /// Advances the simulation by one tick when the game is running; a
    /// reward cell that has to be placed is the one `draw` selects among the
    /// free cells.
    pub fn update_position_with_draw(&mut self, draw: usize)
        requires
            old(self).wf(),
        ensures
            ticked(*old(self), *final(self), draw as int),
    {
        match self.game_state {
            GameState::Running => {},
            _ => return,
        }
        let next_cell = self.get_next_cell(self.direction);
        let grow = match self.world.reward_cell {
            None => {
                self.world.reward_cell = self.world.reward_from_draw(draw);
                false
            },
            Some(reward_cell) => {
                let grow = next_cell.equal(&reward_cell);
                if grow {
                    self.world.reward_cell = self.world.reward_from_draw(draw);
                }
                grow
            },
        };
        let ghost s0 = *self;
        assert(s0.wf());
        let len = self.length();
        let last_cell = self.body[len - 1];
        let last_index = self.idx_vec[len - 1];
        proof {
            crate::cell::lemma_index_in_board(
                last_cell,
                self.world.width as int,
                self.world.height as int,
            );
        }
        self.world.board.set(last_index, false);
        let ghost s1 = *self;
        let mut i: usize = len - 1;
        while i > 0
            invariant
                s1.wf(),
                s1.body@.len() == len,
                i < len,
                self.world == s1.world,
                self.direction == s1.direction,
                self.game_state == s1.game_state,
                self.body@.len() == len,
                self.idx_vec@.len() == len,
                forall|j: int| 0 <= j <= i ==> #[trigger] self.body@[j] == s1.body@[j],
                forall|j: int| 0 <= j <= i ==> #[trigger] self.idx_vec@[j] == s1.idx_vec@[j],
                forall|j: int| i < j < len ==> #[trigger] self.body@[j] == s1.body@[j - 1],
                forall|j: int| i < j < len ==> #[trigger] self.idx_vec@[j] == s1.idx_vec@[j - 1],
            decreases i,
        {
            let c = self.body[i - 1];
            let k = self.idx_vec[i - 1];
            self.body.set(i, c);
            self.idx_vec.set(i, k);
            i -= 1;
        }
        let ghost s2 = *self;
        self.set_snake_head(next_cell);
        if grow {
            self.idx_vec.push(last_index);
            self.body.push(last_cell);
            self.world.board.set(last_index, true);
        }
        proof {
            let t = *self;
            let head = s0.next_head(s0.direction);
            assert forall|j: int| 0 <= j < t.body@.len() implies #[trigger] t.idx_vec@[j]
                == cell_index(t.body@[j], t.world.width as int) by {
                if j == 0 {
                    assert(s2.body@[0] == s1.body@[0]);
                    assert(s2.idx_vec@[0] == s1.idx_vec@[0]);
                    crate::cell::lemma_index_in_board(
                        next_cell,
                        t.world.width as int,
                        t.world.height as int,
                    );
                } else if j == len {
                    assert(last_index == cell_index(s0.body@[len - 1], t.world.width as int));
                } else {
                    assert(s2.body@[j] == s1.body@[j - 1]);
                    assert(s2.idx_vec@[j] == s1.idx_vec@[j - 1]);
                }
            }
            let collided = s1.world.board@[cell_index(head, s0.world.width as int)];
            assert(t.body@ =~= moved_body(s0.body@, head, grow, collided));
            assert(t.world.board@ =~= moved_board(
                s0.world.board@,
                last_index as int,
                cell_index(head, s0.world.width as int),
                grow,
            ));
        }
    }

    /// Advances the simulation by one tick when the game is running; a
    /// reward cell that has to be placed is drawn at random among the free
    /// cells.
    pub fn update_position(&mut self)
        requires
            old(self).wf(),
        ensures
            exists|draw: int| ticked(*old(self), *final(self), draw),
    {
        let free = self.world.free_cell_count();
        let draw = if free > 0 {
            random_below(free)
        } else {
            0
        };
        self.update_position_with_draw(draw);
    }

    /// Clears the board, cuts the body down to its first four cells and sets
    /// the game running.
    pub fn restart_game(&mut self)
        requires
            old(self).wf(),
        ensures
            final(self).wf(),
            final(self).world_spec().board_spec() == Seq::new(
                old(self).world_spec().board_spec().len(),
                |i: int| false,
            ),
            final(self).world_spec().width_spec() == old(self).world_spec().width_spec(),
            final(self).world_spec().height_spec() == old(self).world_spec().height_spec(),
            final(self).world_spec().reward_spec() == old(self).world_spec().reward_spec(),
            final(self).body_spec() == old(self).body_spec().take(
                if old(self).body_spec().len() > 4 {
                    4
                } else {
                    old(self).body_spec().len() as int
                },
            ),
            final(self).body_spec().len() <= 4,
            final(self).direction_spec() == old(self).direction_spec(),
            final(self).state_spec() == GameState::Running,
    {
        let mut k: usize = 0;
        while k < self.world.board.len()
            invariant
                k <= self.world.board@.len(),
                self.world.board@.len() == old(self).world.board@.len(),
                forall|j: int| 0 <= j < k ==> !#[trigger] self.world.board@[j],
                self.world.width == old(self).world.width,
                self.world.height == old(self).world.height,
                self.world.size == old(self).world.size,
                self.world.reward_cell == old(self).world.reward_cell,
                self.body == old(self).body,
                self.idx_vec == old(self).idx_vec,
                self.direction == old(self).direction,
            decreases self.world.board@.len() - k,
        {
            self.world.board.set(k, false);
            k += 1;
        }
        assert(self.world.board@ =~= Seq::new(self.world.board@.len(), |i: int| false));
        assert(old(self).body@ =~= old(self).body@.take(old(self).body@.len() as int));
        let ghost cleared = self.world;
        while self.snake_length() > 4
            invariant
                self.wf(),
                4 <= self.body@.len() <= old(self).body@.len() || self.body@ == old(self).body@,
                self.body@ == old(self).body@.take(self.body@.len() as int),
                self.world == cleared,
                self.direction == old(self).direction,
            decreases self.body@.len(),
        {
            self.body.pop();
            self.idx_vec.pop();
        }
        self.set_game_state(GameState::Running);
    }

    /// Turns the snake to `direction`, unless the move would lead straight
    /// back onto the segment behind the head.
    pub fn change_direction(&mut self, direction: Direction)
        requires
            old(self).wf(),
        ensures
            final(self).wf(),
            final(self).body_spec() == old(self).body_spec(),
            final(self).world_spec() == old(self).world_spec(),
            final(self).state_spec() == old(self).state_spec(),
            final(self).direction_spec() == if old(self).body_spec().len() > 1
                && old(self).body_spec()[1] == old(self).next_head(direction) {
                old(self).direction_spec()
            } else {
                direction
            },
    {
        let next_cell = self.get_next_cell(direction);
        if self.body.len() > 1 {
            let prev_head = self.body[1];
            if prev_head.equal(&next_cell) {
                return;
            }
        }
        self.direction = direction;
    }

    /// Sets the game's status, whatever it was.
    pub fn set_game_state(&mut self, game_state: GameState)
        ensures
            final(self).state_spec() == game_state,
            final(self).body_spec() == old(self).body_spec(),
            final(self).cells_spec() == old(self).cells_spec(),
            final(self).direction_spec() == old(self).direction_spec(),
            final(self).world_spec() == old(self).world_spec(),
    {
        self.game_state = game_state;
    }

    /// Resizes the grid to `width` columns unless a body cell lies in a
    /// removed column; returns whether the body permitted the resize.
    pub fn set_world_width(&mut self, width: usize) -> (r: bool)
        requires
            old(self).wf(),
            width * old(self).world_spec().height_spec() <= usize::MAX,
        ensures
            r == !body_in_removed_zone(
                old(self).body_spec(),
                width as int,
                old(self).world_spec().height_spec() as int,
            ),
            !r ==> *final(self) == *old(self),
            r ==> resize_kept_snake(*old(self), *final(self)) && width_set(
                old(self).world_spec(),
                final(self).world_spec(),
                width as nat,
            ),
    {
        let snake_in_removed_zone = self.check_if_snake_is_in_removed_zone(
            width,
            self.world.height,
        );
        if !snake_in_removed_zone {
            self.world.set_world_width(width);
            self.refresh_cells();
        }
        !snake_in_removed_zone
    }

    /// Resizes the grid to `height` rows unless a body cell lies in a removed
    /// row; returns whether the body permitted the resize.
    pub fn set_world_height(&mut self, height: usize) -> (r: bool)
        requires
            old(self).wf(),
            old(self).world_spec().width_spec() * height <= usize::MAX,
        ensures
            r == !body_in_removed_zone(
                old(self).body_spec(),
                old(self).world_spec().width_spec() as int,
                height as int,
            ),
            !r ==> *final(self) == *old(self),
            r ==> resize_kept_snake(*old(self), *final(self)) && resized(
                old(self).world_spec(),
                final(self).world_spec(),
                old(self).world_spec().width_spec(),
                height as nat,
            ),
    {
        let snake_in_removed_zone = self.check_if_snake_is_in_removed_zone(
            self.world.width,
            height,
        );
        if !snake_in_removed_zone {
            self.world.set_world_height(height);
            self.refresh_cells();
        }
        !snake_in_removed_zone
    }

    /// Whether some body cell lies at or beyond column `width` or row
    /// `height`.
    fn check_if_snake_is_in_removed_zone(&self, width: usize, height: usize) -> (r: bool)
        ensures
            r == body_in_removed_zone(self.body_spec(), width as int, height as int),
    {
        let mut i: usize = 0;
        while i < self.body.len()
            invariant
                i <= self.body@.len(),
                forall|j: int|
                    0 <= j < i ==> !(#[trigger] self.body@[j].x >= width || self.body@[j].y
                        >= height),
            decreases self.body@.len() - i,
        {
            let cell = self.body[i];
            if cell.y >= height || cell.x >= width {
                assert(self.body@[i as int].x >= width || self.body@[i as int].y >= height);
                return true;
            }
            i += 1;
        }
        false
    }

    /// Recomputes the index cache from the body after the grid changed.
    fn refresh_cells(&mut self)
        requires
            old(self).world.wf(),
            old(self).body@.len() >= 1,
            old(self).idx_vec@.len() == old(self).body@.len(),
            forall|i: int|
                0 <= i < old(self).body@.len() ==> cell_in_bounds(
                    #[trigger] old(self).body@[i],
                    old(self).world.width as int,
                    old(self).world.height as int,
                ),
        ensures
            final(self).wf(),
            final(self).body == old(self).body,
            final(self).world == old(self).world,
            final(self).direction == old(self).direction,
            final(self).game_state == old(self).game_state,
    {
        let mut i: usize = 0;
        while i < self.body.len()
            invariant
                self.world == old(self).world,
                self.world.wf(),
                forall|j: int|
                    0 <= j < self.body@.len() ==> cell_in_bounds(
                        #[trigger] self.body@[j],
                        self.world.width as int,
                        self.world.height as int,
                    ),
                self.body == old(self).body,
                self.direction == old(self).direction,
                self.game_state == old(self).game_state,
                self.idx_vec@.len() == self.body@.len(),
                i <= self.body@.len(),
                forall|j: int|
                    0 <= j < i ==> #[trigger] self.idx_vec@[j] == cell_index(
                        self.body@[j],
                        self.world.width as int,
                    ),
            decreases self.body@.len() - i,
        {
            let k = self.body[i].to_index(&self.world);
            self.idx_vec.set(i, k);
            i += 1;
        }
    }

    /// Writes the new head and marks its slot, or ends the game, leaving the
    /// body and the board as they are, when the slot is already occupied.
    fn set_snake_head(&mut self, new_head: Cell)
        requires
            old(self).world.wf(),
            old(self).body@.len() >= 1,
            old(self).idx_vec@.len() == old(self).body@.len(),
            cell_in_bounds(new_head, old(self).world.width as int, old(self).world.height as int),
        ensures
            final(self).direction == old(self).direction,
            final(self).world.wf(),
            final(self).world.width == old(self).world.width,
            final(self).world.height == old(self).world.height,
            final(self).world.reward_cell == old(self).world.reward_cell,
            ({
                let idx = cell_index(new_head, old(self).world.width as int);
                if old(self).world.board@[idx] {
                    &&& final(self).game_state == GameState::Lost
                    &&& final(self).world.board@ == old(self).world.board@
                    &&& final(self).body@ == old(self).body@
                    &&& final(self).idx_vec@ == old(self).idx_vec@
                } else {
                    &&& final(self).game_state == old(self).game_state
                    &&& final(self).world.board@ == old(self).world.board@.update(idx, true)
                    &&& final(self).body@ == old(self).body@.update(0, new_head)
                    &&& final(self).idx_vec@ == old(self).idx_vec@.update(0, idx as usize)
                }
            }),
    {
        let cell_index = new_head.to_index(&self.world);
        if self.world.board[cell_index] {
            self.game_state = GameState::Lost;
        } else {
            self.body.set(0, new_head);
            self.idx_vec.set(0, cell_index);
            self.world.board.set(cell_index, true);
        }
    }

    /// The board index of each body cell, head first.
    pub fn snake_cells(&self) -> (r: &[usize])
        ensures
            r@ == self.cells_spec(),
    {
        self.idx_vec.as_slice()
    }

    pub fn snake_length(&self) -> (r: usize)
        ensures
            r == self.body_spec().len(),
    {
        self.body.len()
    }

    pub fn head(&self) -> (r: Cell)
        requires
            self.wf(),
        ensures
            r == self.body_spec()[0],
    {
        self.body[0]
    }

    pub fn direction(&self) -> (r: Direction)
        ensures
            r == self.direction_spec(),
    {
        self.direction
    }

    pub fn world(&self) -> (r: &World)
        ensures
            *r == self.world_spec(),
    {
        &self.world
    }

    /// Board index of the reward cell, or -1 when none is placed.
    pub fn get_reward_cell_idx(&self) -> (r: i32)
        requires
            self.wf(),
        ensures
            r == match self.world_spec().reward_spec() {
                None => -1i32,
                Some(c) => cell_index(c, self.world_spec().width_spec() as int) as i32,
            },
    {
        self.world.get_reward_cell_idx()
    }

    fn length(&self) -> (r: usize)
        ensures
            r == self.body_spec().len(),
    {
        self.body.len()
    }

    /// The cell the head would move to under `direction`.
    fn get_next_cell(&self, direction: Direction) -> (r: Cell)
        requires
            self.wf(),
        ensures
            r == self.next_head(direction),
            cell_in_bounds(r, self.world.width as int, self.world.height as int),
    {
        let head = self.body[0];
        match direction {
            Direction::Up => Cell { x: head.x, y: wrap_step(head.y, false, self.world.height) },
            Direction::Down => Cell { x: head.x, y: wrap_step(head.y, true, self.world.height) },
            Direction::Right => Cell { x: wrap_step(head.x, true, self.world.width), y: head.y },
            Direction::Left => Cell { x: wrap_step(head.x, false, self.world.width), y: head.y },
        }
    }
}

} // verus!

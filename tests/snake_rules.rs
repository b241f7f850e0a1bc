use snake::{Cell, Direction, GameState, Snake, World};

fn running_snake(width: usize, height: usize, spawn: usize, len: usize) -> Snake {
    let mut s = Snake::new(spawn, len, World::new(width, height));
    s.set_game_state(GameState::Running);
    s
}

#[test]
fn cell_index_conversions() {
    let world = World::new(10, 10);
    let c = Cell::from_idx(23, &world);
    assert_eq!(c, Cell { x: 3, y: 2 });
    assert_eq!(c.to_index(&world), 23);
    assert!(c.equal(&Cell { x: 3, y: 2 }));
    assert!(!c.equal(&Cell { x: 2, y: 3 }));
}

#[test]
fn new_world_is_empty() {
    let world = World::new(4, 3);
    assert_eq!(world.width(), 4);
    assert_eq!(world.height(), 3);
    assert_eq!(world.board().len(), 12);
    assert!(world.board().iter().all(|b| !*b));
    assert_eq!(world.get_reward_cell_idx(), -1);
    assert_eq!(world.free_cell_count(), 12);
}

#[test]
fn reward_from_draw_picks_ranked_free_cell() {
    let world = World::new(3, 2);
    assert_eq!(world.reward_from_draw(4), Some(Cell { x: 1, y: 1 }));
    assert_eq!(world.reward_from_draw(7), Some(Cell { x: 1, y: 0 }));
    let empty = World::new(0, 5);
    assert_eq!(empty.reward_from_draw(3), None);
}

#[test]
fn new_snake_walks_consecutive_indices() {
    let s = Snake::new(98, 4, World::new(10, 10));
    assert_eq!(s.snake_cells(), &[98, 99, 0, 1]);
    assert_eq!(s.snake_length(), 4);
    assert_eq!(s.head(), Cell { x: 8, y: 9 });
    assert_eq!(s.direction(), Direction::Up);
    assert_eq!(s.game_state, GameState::Stopped);
    assert_eq!(s.get_reward_cell_idx(), -1);
}

#[test]
fn zero_length_snake_has_one_cell() {
    let s = Snake::new(5, 0, World::new(10, 10));
    assert_eq!(s.snake_cells(), &[5]);
}

#[test]
fn stopped_snake_does_not_move() {
    let mut s = Snake::new(50, 3, World::new(10, 10));
    s.update_position_with_draw(0);
    assert_eq!(s.snake_cells(), &[50, 51, 52]);
    assert_eq!(s.get_reward_cell_idx(), -1);
}

#[test]
fn wrap_around_left_edge() {
    let mut s = running_snake(10, 10, 50, 3);
    assert_eq!(s.head(), Cell { x: 0, y: 5 });
    s.change_direction(Direction::Left);
    s.update_position_with_draw(99);
    assert_eq!(s.head(), Cell { x: 9, y: 5 });
    assert_eq!(s.snake_cells(), &[59, 50, 51]);
}

#[test]
fn wrap_around_top_edge() {
    let mut s = running_snake(10, 10, 3, 2);
    s.update_position_with_draw(0);
    assert_eq!(s.head(), Cell { x: 3, y: 9 });
    assert_eq!(s.snake_cells(), &[93, 3]);
}

#[test]
fn first_tick_places_reward_without_growth() {
    let mut s = running_snake(10, 10, 50, 3);
    s.update_position_with_draw(30);
    assert_eq!(s.get_reward_cell_idx(), 30);
    assert_eq!(s.snake_length(), 3);
    assert_eq!(s.snake_cells(), &[40, 50, 51]);
}

#[test]
fn growth_on_reward() {
    let mut s = running_snake(10, 10, 50, 3);
    s.update_position_with_draw(30);
    s.update_position_with_draw(0);
    assert_eq!(s.snake_length(), 4);
    assert_eq!(s.snake_cells(), &[30, 40, 50, 51]);
    assert_eq!(s.get_reward_cell_idx(), 0);
    assert_eq!(s.game_state, GameState::Running);
    // Slots entered by the head, and the tail slot taken back on growth.
    let board = s.world().board();
    for idx in [30usize, 40, 51] {
        assert!(board[idx]);
    }
}

#[test]
fn new_reward_avoids_occupied_cells() {
    let mut s = running_snake(10, 10, 50, 3);
    s.update_position_with_draw(30);
    // Slot 40 is the only occupied one when the second reward is drawn.
    s.update_position_with_draw(40);
    assert_eq!(s.get_reward_cell_idx(), 41);
}

#[test]
fn collision_with_own_body() {
    let mut s = running_snake(10, 10, 50, 5);
    s.update_position_with_draw(99);
    for _ in 0..4 {
        s.update_position_with_draw(0);
    }
    assert_eq!(s.snake_cells(), &[0, 10, 20, 30, 40]);
    s.change_direction(Direction::Right);
    s.update_position_with_draw(0);
    s.change_direction(Direction::Down);
    s.update_position_with_draw(0);
    assert_eq!(s.game_state, GameState::Running);
    s.change_direction(Direction::Left);
    s.update_position_with_draw(0);
    assert_eq!(s.game_state, GameState::Lost);
    // The body stays as shifted: the old head is not replaced by the new one.
    assert_eq!(s.snake_cells(), &[11, 11, 1, 0, 10]);
    assert_eq!(s.head(), Cell { x: 1, y: 1 });
    let cells = s.snake_cells().to_vec();
    let board = s.world().board().to_vec();
    s.update_position_with_draw(0);
    s.update_position();
    assert_eq!(s.snake_cells(), &cells[..]);
    assert_eq!(s.world().board(), &board[..]);
    assert_eq!(s.game_state, GameState::Lost);
}

#[test]
fn neck_reversal_is_ignored() {
    let mut s = running_snake(10, 10, 65, 2);
    s.update_position_with_draw(0);
    assert_eq!(s.snake_cells(), &[55, 65]);
    assert_eq!(s.direction(), Direction::Up);
    s.change_direction(Direction::Down);
    assert_eq!(s.direction(), Direction::Up);
    s.change_direction(Direction::Left);
    assert_eq!(s.direction(), Direction::Left);
}

#[test]
fn single_cell_snake_may_reverse() {
    let mut s = running_snake(10, 10, 55, 1);
    s.change_direction(Direction::Down);
    assert_eq!(s.direction(), Direction::Down);
}

#[test]
fn resize_width_rejected_when_body_in_removed_column() {
    let mut s = Snake::new(7, 3, World::new(10, 10));
    let board = s.world().board().to_vec();
    assert!(!s.set_world_width(9));
    assert_eq!(s.world().width(), 10);
    assert_eq!(s.world().board(), &board[..]);
    assert_eq!(s.get_reward_cell_idx(), -1);
    assert_eq!(s.snake_cells(), &[7, 8, 9]);
}

#[test]
fn resize_width_accepted_recomputes_indices() {
    let mut s = Snake::new(17, 3, World::new(10, 10));
    assert!(s.set_world_width(12));
    assert_eq!(s.world().width(), 12);
    assert_eq!(s.world().board().len(), 120);
    assert_eq!(s.snake_cells(), &[19, 20, 21]);
}

#[test]
fn resize_height_rejected_when_body_in_removed_row() {
    let mut s = Snake::new(90, 3, World::new(10, 10));
    assert!(!s.set_world_height(9));
    assert_eq!(s.world().height(), 10);
    assert!(s.set_world_height(12));
    assert_eq!(s.world().height(), 12);
    assert_eq!(s.world().board().len(), 120);
    assert_eq!(s.snake_cells(), &[90, 91, 92]);
}

#[test]
fn world_resize_copies_board_by_index() {
    let mut s = running_snake(4, 4, 5, 2);
    s.update_position_with_draw(15);
    assert_eq!(s.snake_cells(), &[1, 5]);
    assert!(s.set_world_height(2));
    let board = s.world().board();
    assert_eq!(board.len(), 8);
    assert!(board[1]);
    assert_eq!(board.iter().filter(|b| **b).count(), 1);
    // A placed reward is drawn anew on a free cell of the new board.
    let r = s.get_reward_cell_idx();
    assert!(r >= 0 && r < 8 && !board[r as usize]);
}

#[test]
fn world_width_shrink_refused_on_occupied_last_column() {
    let mut s = running_snake(4, 4, 8, 1);
    s.update_position_with_draw(15);
    assert_eq!(s.snake_cells(), &[4]);
    assert!(s.set_world_width(5));
    assert_eq!(s.world().width(), 5);
    assert_eq!(s.snake_cells(), &[5]);
    assert!(s.world().board()[4]);
    // The body allows the shrink, but slot 4 ends the first row of width 5.
    assert!(s.set_world_width(4));
    assert_eq!(s.world().width(), 5);
    assert_eq!(s.world().board().len(), 20);
}

#[test]
fn world_resize_on_empty_grid() {
    let mut world = World::new(4, 4);
    world.set_world_width(3);
    assert_eq!(world.width(), 3);
    assert_eq!(world.board().len(), 12);
    world.set_world_height(5);
    assert_eq!(world.height(), 5);
    assert_eq!(world.board().len(), 15);
    world.set_world_width(6);
    assert_eq!(world.board().len(), 30);
    assert_eq!(world.get_reward_cell_idx(), -1);
}

#[test]
fn restart_clears_board_and_truncates() {
    let mut s = running_snake(10, 10, 0, 6);
    s.update_position_with_draw(99);
    s.update_position_with_draw(99);
    s.set_game_state(GameState::Stopped);
    s.restart_game();
    assert!(s.world().board().iter().all(|b| !*b));
    assert_eq!(s.snake_length(), 4);
    assert_eq!(s.game_state, GameState::Running);
    assert_eq!(s.snake_cells(), &[80, 90, 0, 1]);
}

#[test]
fn restart_keeps_short_body() {
    let mut s = Snake::new(0, 2, World::new(10, 10));
    s.restart_game();
    assert_eq!(s.snake_length(), 2);
    assert_eq!(s.game_state, GameState::Running);
}

#[test]
fn random_update_places_reward_on_free_cell() {
    let mut s = running_snake(10, 10, 50, 3);
    s.update_position();
    assert_eq!(s.snake_cells(), &[40, 50, 51]);
    let r = s.get_reward_cell_idx();
    assert!(r >= 0 && r < 100);
}

#[test]
fn random_reward_on_single_free_cell() {
    let mut s = running_snake(2, 1, 1, 1);
    s.change_direction(Direction::Right);
    s.update_position_with_draw(1);
    assert_eq!(s.get_reward_cell_idx(), 1);
    assert_eq!(s.snake_cells(), &[0]);
    // Slot 0 is occupied, so the reward drawn on growth can only be slot 1.
    s.update_position();
    assert_eq!(s.snake_length(), 2);
    assert_eq!(s.snake_cells(), &[1, 0]);
    assert_eq!(s.get_reward_cell_idx(), 1);
}

//! Rule engine of a snake game played on a toroidal grid: the playing field,
//! the snake's body, its movement, growth, collision and reward placement,
//! and live resizing of the field.
mod cell;
mod world;
mod snake;
pub mod laws;

pub use cell::{Cell, Direction, GameState};
pub use world::World;
pub use snake::Snake;

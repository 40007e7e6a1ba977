//! Simulation core of a snake game on a toroidal grid.
//!
//! The `Board` owns a fixed-size grid of tagged cells together with the
//! game-over and pause flags and an outbound queue of gameplay events; the
//! `Snake` owns the ordered body segments and the current heading and
//! mutates the board's cell tags as it moves, grows and collides.
//! Rendering, input handling and audio are left to the driver around the
//! library: it reads the cells once per frame, translates key presses into
//! `Snake::change_direction` and the like, and forwards the drained events
//! to whatever sink it likes.

mod board;
mod snake;

pub use board::{Board, Cell, CellType, GameEvent};
pub use snake::{Direction, Part, Snake};

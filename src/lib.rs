//! Game-state engine of a tick-driven snake game on a bounded grid.

pub mod direction;
pub mod input;
pub mod square;
pub mod snake;
pub mod food;
pub mod game;

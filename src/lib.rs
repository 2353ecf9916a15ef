//! A grid-based snake game engine: the board and its cells, the snake's
//! movement and collision rules, food placement, the tick-driven game state
//! machine and the high-score list format.

pub mod food;
pub mod game;
pub mod grid;
pub mod random;
pub mod scores;
pub mod snake;
pub mod types;

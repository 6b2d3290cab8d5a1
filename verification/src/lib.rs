//! Game logic of a terminal Tetris with power-ups: the board, the falling
//! pieces, the timed task queue, the power-up effects, the screens' state
//! machines, the settings, the command line and the leaderboard rules.
pub mod args;
pub mod color;
pub mod config;
pub mod leaderboard;
pub mod piece;
pub mod powerup;
pub mod screen;
pub mod state;
pub mod task;

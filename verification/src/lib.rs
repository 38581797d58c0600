//! Game logic of a terminal Tetris: the seven tetrominoes and their rotation,
//! the 7-bag piece generator, the playfield with collision, locking, line
//! clearing and scoring, the mapping from key presses to game inputs, and the
//! placement of the playfield on the screen.

pub mod count;
pub mod piece;
pub mod bag;
pub mod board;
pub mod game;
pub mod game_loop;
pub mod keys;
pub mod laws;
pub mod layout;
pub mod properties;

//! A board for the game of Go, on which two players place stones in turn.
//!
//! The library keeps the state of the board and of the turn, maps positions
//! in the world to cells of the board and back, decides what a click does,
//! and says what there is to draw. It knows no rule of the game beyond this:
//! a stone goes on an empty cell of the board, and then the other colour moves.

pub mod board;
pub mod coords;
pub mod game;
pub mod piece;
pub mod render;

pub use board::{setup_board, BoardState, BOARD_SIZE};
pub use coords::{cell_to_world, world_to_cell, BOARD_OFFSET, GRID_SIZE};
pub use game::Game;
pub use piece::{setup_player, CurrentPlayer, Piece, PieceColor};
pub use render::{draw_board, Line, CURSOR_RADIUS, PIECE_RADIUS};

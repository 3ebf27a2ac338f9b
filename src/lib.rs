//! Recursive tic-tac-toe: the board model, tile state machine, grid layout
//! and the projection from tile state to displayed image.

pub mod board;
pub mod layout;
pub mod sprites;
pub mod tile;

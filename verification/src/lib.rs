//! A falling-block game engine: the board, the pieces, collision checks,
//! locking, row clearing, gravity and command dispatch.

pub mod board;
pub mod collision;
pub mod controller;
pub mod input;
pub mod rules;
pub mod scene;
pub mod shape;
pub mod state;
pub mod terminal;
pub mod tetromino;

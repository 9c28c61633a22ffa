//! A tic-tac-toe engine with a verified exhaustive game-tree search.

pub mod game;
pub mod ai;
pub mod input;

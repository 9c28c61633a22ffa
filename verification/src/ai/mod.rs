//! Agents that choose a move, and the game tree that the search agent walks.

pub mod draw;
pub mod game_tree;
pub mod minimax;
pub mod parallel;
pub mod play;
pub mod random;
pub mod traits;

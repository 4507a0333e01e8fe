//! A verified 3x3 two-player board game core.
//!
//! The library models the board, the totally ordered outcome value used to
//! rank positions, an exhaustive game-tree evaluator with randomized
//! tie-breaking, and the move-selection strategies built on them.

pub mod board;
pub mod ctrls;
pub mod evaluator;
pub mod outcome;

pub use board::Board;
pub use board::Player;
pub use outcome::Evaluation;

//! A small chess engine core: position scores, a static evaluator, a
//! bounded-depth tree search and the drivers that deepen it.

pub mod bits;
pub mod driver;
pub mod eval;
pub mod minimax;
pub mod rules;
pub mod score;
pub mod search;
pub mod uci;

//! Verified core of a xiangqi (Chinese chess) engine: board representation,
//! FEN handling, opening and endgame knowledge, evaluation building blocks,
//! circuit breaking, CQRS messaging and the host-side GPU batching logic.
use vstd::prelude::*;

pub mod board;
pub mod book;
pub mod circuit;
pub mod cqrs;
pub mod eval;
pub mod gpu;

verus! {

} // verus!

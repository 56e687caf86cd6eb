//! Board representation: squares, bitboards, pieces, positions, hashing and FEN.
use vstd::prelude::*;

pub mod arbiter;
pub mod bitboard;
pub mod fen;
pub mod magic;
pub mod moves;
pub mod piece;
pub mod position;
pub mod roundtrip;
pub mod square;
pub mod state;
pub mod zobrist;

pub use bitboard::Bitboard;
pub use piece::{Color, Piece, Role};
pub use position::Position;
pub use state::State;
pub use zobrist::Zobrist;
pub use square::Square;

verus! {

} // verus!

//! Core of a chess engine: bitboard primitives, position state with
//! reversible make/unmake, legal move generation, move ordering, a
//! transposition table, and an alpha-beta search.

pub mod bitboard;
pub mod move_generator;
pub mod position;
pub mod search;
pub mod utility;

//! Move and piece data model.

use vstd::prelude::*;
use crate::bitboard::Square;

verus! {

/// Side of a piece or a player to move.
#[derive(Clone, Copy, PartialEq, Eq, Structural, Debug)]
pub enum Color {
    White,
    Black,
}

impl Color {
    /// The other side.
    pub open spec fn spec_opposite(self) -> Color {
        match self {
            Color::White => Color::Black,
            Color::Black => Color::White,
        }
    }

    /// The other side.
    #[verifier::when_used_as_spec(spec_opposite)]
    pub fn opposite(self) -> (r: Color)
        ensures
            r == self.spec_opposite(),
    {
        match self {
            Color::White => Color::Black,
            Color::Black => Color::White,
        }
    }
}

/// Kind of a chess piece, without its color.
#[derive(Clone, Copy, PartialEq, Eq, Structural, Debug)]
pub enum PieceKind {
    Pawn,
    Knight,
    Bishop,
    Rook,
    Queen,
    King,
}

/// A piece: a kind together with the side it belongs to.
#[derive(Clone, Copy, PartialEq, Eq, Structural, Debug)]
pub struct Piece {
    pub color: Color,
    pub kind: PieceKind,
}

/// The tagged outcome of a move; exactly one variant is active per move and
/// it fully determines how the move is applied to and reverted from a
/// position.
#[derive(Clone, Copy, PartialEq, Eq, Structural, Debug)]
pub enum MoveFlag {
    /// Nothing special, a regular move without captures.
    Quiet,
    /// Holds the opponent piece that was captured on the target square.
    Capture(Piece),
    /// A pawn reached the last rank and became the given piece.
    Promotion(Piece),
    /// A capture that is also a promotion: captured piece, then new piece.
    CapturePromotion(Piece, Piece),
    /// A pawn double move; holds the en-passant target square it creates.
    PawnDoubleMove(Square),
    /// An en-passant capture; holds the square of the captured pawn, which
    /// differs from the target square.
    EnPassantCapture(Square),
    /// Kingside castle.
    KingCastle,
    /// Queenside castle.
    QueenCastle,
}

/// Describes a move on the board and information related to that move.
#[derive(Clone, Copy, PartialEq, Eq, Structural, Debug)]
pub struct Move {
    pub from: Square,
    pub to: Square,
    pub piece: Piece,
    pub flag: MoveFlag,
}

} // verus!

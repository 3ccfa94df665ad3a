//! Static evaluation: a material count from the side to move's point of
//! view, clamped well inside the mate-score band.

use vstd::prelude::*;
use crate::bitboard::Square;
use crate::move_generator::moves::PieceKind;
use crate::position::{spec_piece_at, Position};
use crate::search::Score;

verus! {

/// Conventional material worth of a piece kind; kings carry none since
/// both sides always have exactly one.
pub open spec fn piece_value(k: PieceKind) -> int {
    match k {
        PieceKind::Pawn => 100,
        PieceKind::Knight => 300,
        PieceKind::Bishop => 300,
        PieceKind::Rook => 500,
        PieceKind::Queen => 900,
        PieceKind::King => 0,
    }
}

/// Material balance over the first `n` squares, positive for the side to
/// move.
pub open spec fn spec_material(p: Position, n: nat) -> int
    decreases n,
{
    if n == 0 {
        0
    } else {
        let s = (n - 1) as Square;
        spec_material(p, (n - 1) as nat) + (match spec_piece_at(p, s) {
            Some(pc) => if pc.color == p.side_to_move {
                piece_value(pc.kind)
            } else {
                -piece_value(pc.kind)
            },
            None => 0,
        })
    }
}

/// The full-board material balance, clamped to [-20000, 20000] so that
/// every static score stays clearly below the mate band.
pub open spec fn spec_evaluate(p: Position) -> int {
    let m = spec_material(p, 64);
    if m > 20000 {
        20000
    } else if m < -20000 {
        -20000
    } else {
        m
    }
}

/// Bounds on the running material sum.
proof fn lemma_material_bound(p: Position, n: nat)
    requires
        n <= 64,
    ensures
        -900 * n <= spec_material(p, n) <= 900 * n,
    decreases n,
{
    if n > 0 {
        lemma_material_bound(p, (n - 1) as nat);
    }
}

/// Evaluates the position for the side to move: deterministic, no side
/// effects, higher is better for the mover.
pub fn evaluate(p: &Position) -> (r: Score)
    ensures
        r as int == spec_evaluate(*p),
        -20000 <= r <= 20000,
{
    let mut acc: i32 = 0;
    let mut s: u8 = 0;
    while s < 64
        invariant
            s <= 64,
            acc as int == spec_material(*p, s as nat),
            -900 * (s as int) <= acc as int <= 900 * (s as int),
        decreases 64 - s,
    {
        match p.piece_at(s) {
            Some(pc) => {
                let v: i32 = match pc.kind {
                    PieceKind::Pawn => 100,
                    PieceKind::Knight => 300,
                    PieceKind::Bishop => 300,
                    PieceKind::Rook => 500,
                    PieceKind::Queen => 900,
                    PieceKind::King => 0,
                };
                if pc.color == p.side_to_move {
                    acc = acc + v;
                } else {
                    acc = acc - v;
                }
            },
            None => {},
        }
        s = s + 1;
    }
    if acc > 20000 {
        20000
    } else if acc < -20000 {
        -20000
    } else {
        acc as i16
    }
}

} // verus!

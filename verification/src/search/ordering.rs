//! Move ordering: the most promising moves first, without adding,
//! dropping or duplicating any.

use vstd::prelude::*;
use vstd::multiset::Multiset;
use vstd::seq_lib::group_to_multiset_ensures;
use crate::move_generator::moves::{Move, MoveFlag, PieceKind};
use crate::position::Position;

verus! {

broadcast use group_to_multiset_ensures;

/// Material worth used for capture ordering.
pub open spec fn spec_move_value(k: PieceKind) -> int {
    match k {
        PieceKind::Pawn => 100,
        PieceKind::Knight => 300,
        PieceKind::Bishop => 300,
        PieceKind::Rook => 500,
        PieceKind::Queen => 900,
        PieceKind::King => 10000,
    }
}

/// Material worth used for capture ordering.
fn value_of(k: PieceKind) -> (r: i32)
    ensures
        r as int == spec_move_value(k),
        0 <= r <= 10000,
{
    match k {
        PieceKind::Pawn => 100,
        PieceKind::Knight => 300,
        PieceKind::Bishop => 300,
        PieceKind::Rook => 500,
        PieceKind::Queen => 900,
        PieceKind::King => 10000,
    }
}

/// The priority a move earns from its flag alone: captures by victim
/// value minus attacker value, then promotions, then quiet moves.
pub open spec fn spec_flag_score(m: Move) -> int {
    match m.flag {
        MoveFlag::Capture(cp) => 100000 + 10 * spec_move_value(cp.kind) - spec_move_value(
            m.piece.kind,
        ),
        MoveFlag::CapturePromotion(cp, np) => 100000 + 10 * spec_move_value(cp.kind)
            + spec_move_value(np.kind),
        MoveFlag::EnPassantCapture(_) => 100000 + 10 * spec_move_value(PieceKind::Pawn)
            - spec_move_value(PieceKind::Pawn),
        MoveFlag::Promotion(np) => 90000 + spec_move_value(np.kind),
        MoveFlag::PawnDoubleMove(_) => 10,
        MoveFlag::KingCastle => 20,
        MoveFlag::QueenCastle => 20,
        MoveFlag::Quiet => 0,
    }
}

/// The full ordering priority: the table's best move outranks everything,
/// and every other move scores by its flag.
pub open spec fn spec_score(m: Move, tt_hint: Option<Move>) -> int {
    match tt_hint {
        Some(h) => if m == h {
            1000000
        } else {
            spec_flag_score(m)
        },
        None => spec_flag_score(m),
    }
}

/// A move that is not the hint scores far below the hint.
proof fn lemma_flag_score_bounded(m: Move, tt_hint: Option<Move>)
    ensures
        !(tt_hint matches Some(h) && m == h) ==> spec_score(m, tt_hint) <= 300000,
        spec_score(m, tt_hint) >= 0 - 10000,
{
}

/// The ordering priority of a move, highest first.
fn score_of(m: &Move, tt_hint: &Option<Move>) -> (r: i32)
    ensures
        r as int == spec_score(*m, *tt_hint),
{
    match tt_hint {
        Some(h) => {
            if *m == *h {
                return 1000000;
            }
        },
        None => {},
    }
    match m.flag {
        MoveFlag::Capture(cp) => 100000 + 10 * value_of(cp.kind) - value_of(m.piece.kind),
        MoveFlag::CapturePromotion(cp, np) => 100000 + 10 * value_of(cp.kind) + value_of(np.kind),
        MoveFlag::EnPassantCapture(_) => 100000 + 10 * value_of(PieceKind::Pawn) - value_of(
            PieceKind::Pawn,
        ),
        MoveFlag::Promotion(np) => 90000 + value_of(np.kind),
        MoveFlag::PawnDoubleMove(_) => 10,
        MoveFlag::KingCastle => 20,
        MoveFlag::QueenCastle => 20,
        MoveFlag::Quiet => 0,
    }
}

/// Reorders a move list so the most promising moves come first: the
/// result holds exactly the same moves, sorted by descending priority,
/// and the table's best move, when it is in the list, comes out first.
#[verifier::loop_isolation(false)]
pub fn order(moves: Vec<Move>, p: &Position, tt_hint: Option<Move>) -> (r: Vec<Move>)
    ensures
        r@.to_multiset() == moves@.to_multiset(),
        r@.len() == moves@.len(),
        forall|i: int, j: int|
            0 <= i <= j < r@.len() ==> spec_score(#[trigger] r@[i], tt_hint) >= spec_score(
                #[trigger] r@[j],
                tt_hint,
            ),
        tt_hint matches Some(h) ==> (moves@.contains(h) ==> r@.len() > 0 && r@[0] == h),
{
    let ghost orig = moves@;
    let mut work = moves;
    let mut out: Vec<Move> = Vec::new();
    proof {
        assert(out@.to_multiset().add(work@.to_multiset()) =~= orig.to_multiset());
    }
    while work.len() > 0
        invariant
            out@.to_multiset().add(work@.to_multiset()) == orig.to_multiset(),
            out@.len() + work@.len() == orig.len(),
            forall|i: int, j: int|
                0 <= i <= j < out@.len() ==> spec_score(#[trigger] out@[i], tt_hint) >= spec_score(
                    #[trigger] out@[j],
                    tt_hint,
                ),
            forall|a: int, b: int|
                0 <= a < out@.len() && 0 <= b < work@.len() ==> spec_score(
                    #[trigger] out@[a],
                    tt_hint,
                ) >= spec_score(#[trigger] work@[b], tt_hint),
        decreases work.len(),
    {
        let mut bi: usize = 0;
        let mut bs: i32 = score_of(&work[0], &tt_hint);
        let mut j: usize = 1;
        while j < work.len()
            invariant
                work@.len() > 0,
                bi < work@.len(),
                j <= work@.len(),
                bs as int == spec_score(work@[bi as int], tt_hint),
                forall|k: int|
                    0 <= k < j ==> spec_score(#[trigger] work@[k], tt_hint) <= bs as int,
            decreases work@.len() - j,
        {
            let sj = score_of(&work[j], &tt_hint);
            if sj > bs {
                bi = j;
                bs = sj;
            }
            j = j + 1;
        }
        let ghost pre_work = work@;
        let ghost pre_out = out@;
        let m = work.remove(bi);
        out.push(m);
        proof {
            assert(work@.to_multiset() =~= pre_work.to_multiset().remove(m));
            assert(out@.to_multiset() =~= pre_out.to_multiset().insert(m));
            assert(pre_work.to_multiset().count(m) > 0) by {
                assert(pre_work.contains(m));
            }
            assert(out@.to_multiset().add(work@.to_multiset()) =~= orig.to_multiset());
            assert forall|b: int| 0 <= b < work@.len() implies spec_score(
                #[trigger] work@[b],
                tt_hint,
            ) <= spec_score(m, tt_hint) by {
                if b < bi {
                    assert(work@[b] == pre_work[b]);
                } else {
                    assert(work@[b] == pre_work[b + 1]);
                }
            }
        }
    }
    proof {
        assert(work@.to_multiset() =~= Multiset::<Move>::empty()) by {
            assert forall|x: Move| work@.to_multiset().count(x) == 0 by {
                if work@.to_multiset().count(x) > 0 {
                    assert(work@.contains(x));
                }
            }
        }
        assert(out@.to_multiset() =~= orig.to_multiset());
        assert(out@.to_multiset().len() == orig.to_multiset().len());
        match tt_hint {
            Some(h) => {
                if orig.contains(h) {
                    assert(orig.to_multiset().count(h) > 0);
                    assert(out@.to_multiset().count(h) > 0);
                    assert(out@.contains(h));
                    let k = choose|k: int| 0 <= k < out@.len() && out@[k] == h;
                    assert(spec_score(out@[0], tt_hint) >= spec_score(out@[k], tt_hint));
                    assert(spec_score(h, tt_hint) == 1000000);
                    lemma_flag_score_bounded(out@[0], tt_hint);
                }
            },
            None => {},
        }
    }
    out
}

} // verus!

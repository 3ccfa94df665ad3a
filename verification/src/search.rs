//! Depth-first alpha-beta search in the negamax convention, with
//! transposition-table memoization and move ordering.

pub mod evaluate;
pub mod ordering;
pub mod tt;

use vstd::prelude::*;
use vstd::seq_lib::group_to_multiset_ensures;
use crate::move_generator::moves::Move;
use crate::move_generator::{castle_ok, generate, in_check, spec_generate, spec_in_check};
use crate::position::{
    applicable, lemma_make_unmake_roundtrip, move_squares_ok, spec_make, Position,
};
use crate::search::evaluate::evaluate;
use crate::search::ordering::order;
use crate::search::tt::{fingerprint, BoundKind, SearchTT, TTEntry};

verus! {

/// The score of the board; a positive number means the moving side is
/// ahead.
pub type Score = i16;

/// Base of the mate band: a side that is mated at ply `n` scores
/// `-(MATE_SCORE - n)`, so nearer mates have larger magnitude.
pub const MATE_SCORE: Score = 30000;

/// Scores at or above this magnitude announce a forced mate.
pub const MATE_THRESHOLD: Score = 29000;

/// Every move a list produced by the generator holds is applicable and
/// leaves the mover's king safe; restated for a reordered copy of such a
/// list.
spec fn moves_sound(p: Position, s: Seq<Move>) -> bool {
    forall|i: int|
        0 <= i < s.len() ==> applicable(p, #[trigger] s[i]) && !spec_in_check(
            spec_make(p, s[i]),
            p.side_to_move,
        )
}

/// A permutation holds the same moves, so it stays sound.
proof fn lemma_permutation_sound(p: Position, a: Seq<Move>, b: Seq<Move>)
    requires
        moves_sound(p, a),
        a.to_multiset() == b.to_multiset(),
    ensures
        moves_sound(p, b),
{
    broadcast use group_to_multiset_ensures;

    assert forall|i: int|
        0 <= i < b.len() implies applicable(p, #[trigger] b[i]) && !spec_in_check(
        spec_make(p, b[i]),
        p.side_to_move,
    ) by {
        let m = b[i];
        assert(b.contains(m));
        assert(b.to_multiset().count(m) > 0);
        assert(a.to_multiset().count(m) > 0);
        assert(a.contains(m));
        let j = choose|j: int| 0 <= j < a.len() && a[j] == m;
        assert(applicable(p, a[j]));
    }
}

/// Applicability names real squares, which is all that applying and
/// reverting a move needs.
proof fn lemma_applicable_squares(p: Position, m: Move)
    requires
        applicable(p, m),
    ensures
        move_squares_ok(m),
{
}

/// The recursive alpha-beta minimax: explores moves best-first, prunes
/// once alpha meets beta, consults and fills the transposition table, and
/// always hands the position back exactly as it was given.
#[verifier::loop_isolation(false)]
fn negamax(
    pos: &mut Position,
    depth: u8,
    ply: u8,
    alpha: Score,
    beta: Score,
    tt: &mut SearchTT,
) -> (r: Score)
    requires
        (ply as int) + (depth as int) <= 64,
        -31000 <= alpha,
        alpha < beta,
        beta <= 31000,
        (old(pos).fullmove_number as int) + (depth as int) < 0xFFFF_0000,
        (old(pos).halfmove_clock as int) + (depth as int) < 0xFFFF_0000,
        old(tt).wf(),
    ensures
        *final(pos) == *old(pos),
        final(tt).wf(),
        final(tt).capacity() == old(tt).capacity(),
        -30000 <= r <= 30000,
    decreases depth,
{
    if depth == 0 {
        return evaluate(pos);
    }
    let ghost p0 = *pos;
    let fp = fingerprint(pos);
    let mut alpha_l = alpha;
    let mut beta_l = beta;
    let mut hint: Option<Move> = None;
    match tt.probe(fp) {
        Some(e) => {
            hint = e.best_move;
            if e.depth >= depth {
                match e.bound {
                    BoundKind::Exact => {
                        return e.score;
                    },
                    BoundKind::Lower => {
                        if e.score > alpha_l {
                            alpha_l = e.score;
                        }
                    },
                    BoundKind::Upper => {
                        if e.score < beta_l {
                            beta_l = e.score;
                        }
                    },
                }
                if alpha_l >= beta_l {
                    return e.score;
                }
            }
        },
        None => {},
    }
    let moves = generate(pos);
    if moves.len() == 0 {
        if in_check(pos, pos.side_to_move) {
            return -(MATE_SCORE - (ply as i16));
        } else {
            return 0;
        }
    }
    let ghost mseq = moves@;
    let ordered = order(moves, pos, hint);
    proof {
        lemma_permutation_sound(p0, mseq, ordered@);
    }
    let alpha0 = alpha_l;
    let mut best: Score = -31000;
    let mut best_mv: Option<Move> = None;
    let mut cut = false;
    let mut i: usize = 0;
    while i < ordered.len() && !cut
        invariant
            *pos == p0,
            tt.wf(),
            tt.capacity() == old(tt).capacity(),
            i <= ordered@.len(),
            -31000 <= alpha0,
            alpha0 <= alpha_l,
            alpha_l <= 31000,
            -31000 <= beta_l <= 31000,
            !cut ==> alpha_l < beta_l,
            i == 0 ==> best == -31000 && best_mv is None,
            i > 0 ==> -30000 <= best <= 30000,
            cut ==> i > 0,
        decreases ordered@.len() - i,
    {
        let m = ordered[i];
        proof {
            lemma_applicable_squares(p0, m);
        }
        let u = pos.make(&m);
        let s = negamax(pos, depth - 1, ply + 1, -beta_l, -alpha_l, tt);
        let score: Score = -s;
        proof {
            lemma_make_unmake_roundtrip(p0, m);
        }
        pos.unmake(&m, &u);
        if score > best {
            best = score;
            best_mv = Some(m);
        }
        if score > alpha_l {
            alpha_l = score;
        }
        if alpha_l >= beta_l {
            cut = true;
        }
        i = i + 1;
    }
    let bound = if cut {
        BoundKind::Lower
    } else if best <= alpha0 {
        BoundKind::Upper
    } else {
        BoundKind::Exact
    };
    tt.store(
        TTEntry { fingerprint: fp, depth, score: best, bound, best_move: best_mv },
    );
    best
}

/// Picks the best move for the side to move by a full-window alpha-beta
/// search to the given depth.  Returns nothing exactly when the position
/// has no legal move; a returned move is a legal move of the position.
#[verifier::loop_isolation(false)]
pub fn best_move(p: &Position, depth: u8, tt: &mut SearchTT) -> (r: Option<(Move, Score)>)
    requires
        1 <= depth <= 32,
        (p.fullmove_number as int) + (depth as int) < 0xFFFF_0000,
        (p.halfmove_clock as int) + (depth as int) < 0xFFFF_0000,
        old(tt).wf(),
    ensures
        final(tt).wf(),
        final(tt).capacity() == old(tt).capacity(),
        r is Some <==> spec_generate(*p).len() > 0,
        r matches Some((m, sc)) ==> {
            &&& applicable(*p, m)
            &&& castle_ok(*p, m)
            &&& !spec_in_check(spec_make(*p, m), p.side_to_move)
            &&& -30000 <= sc <= 30000
        },
{
    let moves = generate(p);
    if moves.len() == 0 {
        return None;
    }
    let ghost mseq = moves@;
    let hint = match tt.probe(fingerprint(p)) {
        Some(e) => e.best_move,
        None => None,
    };
    let ordered = order(moves, p, hint);
    proof {
        lemma_permutation_sound(*p, mseq, ordered@);
        lemma_castle_ok_permutation(*p, mseq, ordered@);
    }
    let mut best: Score = -31000;
    let mut best_mv: Option<(Move, Score)> = None;
    let mut i: usize = 0;
    while i < ordered.len()
        invariant
            tt.wf(),
            tt.capacity() == old(tt).capacity(),
            i <= ordered@.len(),
            -31000 <= best <= 30000,
            i == 0 ==> best == -31000 && best_mv is None,
            i > 0 ==> (best_mv matches Some((m, sc)) && applicable(*p, m) && castle_ok(*p, m)
                && !spec_in_check(spec_make(*p, m), p.side_to_move) && -30000 <= sc
                && sc <= 30000 && sc == best),
        decreases ordered@.len() - i,
    {
        let m = ordered[i];
        proof {
            lemma_applicable_squares(*p, m);
        }
        let mut child = *p;
        let _u = child.make(&m);
        let window_alpha: Score = if best > -31000 {
            best
        } else {
            -31000
        };
        let s = negamax(&mut child, depth - 1, 1, -31000, -window_alpha, tt);
        let score: Score = -s;
        if score > best || i == 0 {
            best = score;
            best_mv = Some((m, score));
        }
        i = i + 1;
    }
    best_mv
}

/// Castle checks carry over to any permutation of a generated list.
proof fn lemma_castle_ok_permutation(p: Position, a: Seq<Move>, b: Seq<Move>)
    requires
        forall|i: int| 0 <= i < a.len() ==> castle_ok(p, #[trigger] a[i]),
        a.to_multiset() == b.to_multiset(),
    ensures
        forall|i: int| 0 <= i < b.len() ==> castle_ok(p, #[trigger] b[i]),
{
    broadcast use group_to_multiset_ensures;

    assert forall|i: int| 0 <= i < b.len() implies castle_ok(p, #[trigger] b[i]) by {
        let m = b[i];
        assert(b.contains(m));
        assert(b.to_multiset().count(m) > 0);
        assert(a.to_multiset().count(m) > 0);
        assert(a.contains(m));
        let j = choose|j: int| 0 <= j < a.len() && a[j] == m;
        assert(castle_ok(p, a[j]));
    }
}

/// Reads a forced mate out of the search: the distance in plies to the
/// mate the search found, or nothing when no mate lies within the given
/// depth.  A score `sc` inside the mate band encodes the mate at
/// `MATE_SCORE - sc` plies.
pub fn mate_in(p: &Position, depth: u8, tt: &mut SearchTT) -> (r: Option<u8>)
    requires
        1 <= depth <= 32,
        (p.fullmove_number as int) + (depth as int) < 0xFFFF_0000,
        (p.halfmove_clock as int) + (depth as int) < 0xFFFF_0000,
        old(tt).wf(),
    ensures
        final(tt).wf(),
        final(tt).capacity() == old(tt).capacity(),
        spec_generate(*p).len() == 0 ==> r is None,
        r is Some ==> spec_generate(*p).len() > 0,
        r matches Some(n) ==> 1 <= n <= 64,
{
    match best_move(p, depth, tt) {
        Some((_, sc)) => {
            if sc >= MATE_THRESHOLD {
                let plies = MATE_SCORE - sc;
                if plies >= 1 && plies <= 64 {
                    Some(plies as u8)
                } else {
                    None
                }
            } else {
                None
            }
        },
        None => None,
    }
}

} // verus!

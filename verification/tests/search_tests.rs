use chess_core::bitboard::Bitboard;
use chess_core::move_generator::generate;
use chess_core::move_generator::moves::{Color, Move, MoveFlag};
use chess_core::position::Position;
use chess_core::search::evaluate::evaluate;
use chess_core::search::ordering::order;
use chess_core::search::tt::{fingerprint, BoundKind, SearchTT, TTEntry};
use chess_core::search::{best_move, mate_in, MATE_SCORE};

fn bit(square: u8) -> Bitboard {
    Bitboard(1u64 << (63 - square as u32))
}

fn empty_board() -> Position {
    Position {
        white_pawns: Bitboard(0),
        white_knights: Bitboard(0),
        white_bishops: Bitboard(0),
        white_rooks: Bitboard(0),
        white_queens: Bitboard(0),
        white_king: Bitboard(0),
        black_pawns: Bitboard(0),
        black_knights: Bitboard(0),
        black_bishops: Bitboard(0),
        black_rooks: Bitboard(0),
        black_queens: Bitboard(0),
        black_king: Bitboard(0),
        side_to_move: Color::White,
        castle_white_king: false,
        castle_white_queen: false,
        castle_black_king: false,
        castle_black_queen: false,
        en_passant: None,
        halfmove_clock: 0,
        fullmove_number: 1,
    }
}

fn count_of(moves: &[Move], m: &Move) -> usize {
    moves.iter().filter(|x| *x == m).count()
}

#[test]
fn ordering_is_a_permutation() {
    let p = Position::starting();
    let moves = generate(&p);
    let ordered = order(moves.clone(), &p, None);
    assert_eq!(ordered.len(), moves.len());
    for m in moves.iter() {
        assert_eq!(count_of(&ordered, m), count_of(&moves, m));
    }
    for m in ordered.iter() {
        assert_eq!(count_of(&ordered, m), count_of(&moves, m));
    }
}

#[test]
fn ordering_puts_hint_first() {
    let p = Position::starting();
    let moves = generate(&p);
    let hint = moves[7];
    let ordered = order(moves, &p, Some(hint));
    assert_eq!(ordered[0], hint);
}

#[test]
fn search_is_deterministic() {
    let p = Position::starting();
    let mut tt1 = SearchTT::new(1 << 14);
    let mut tt2 = SearchTT::new(1 << 14);
    let a = best_move(&p, 4, &mut tt1).expect("start has moves");
    let b = best_move(&p, 4, &mut tt2).expect("start has moves");
    assert_eq!(a.1, b.1);
    assert_eq!(a.0, b.0);
}

#[test]
fn table_size_does_not_change_the_score() {
    let p = Position::starting();
    let mut big = SearchTT::new(1 << 14);
    let mut tiny = SearchTT::new(1);
    let a = best_move(&p, 4, &mut big).expect("start has moves");
    let b = best_move(&p, 4, &mut tiny).expect("start has moves");
    assert_eq!(a.1, b.1);
}

#[test]
fn cleared_table_repeats_the_result() {
    let p = Position::starting();
    let mut tt = SearchTT::new(1 << 14);
    let a = best_move(&p, 3, &mut tt).expect("start has moves");
    tt.clear();
    let b = best_move(&p, 3, &mut tt).expect("start has moves");
    assert_eq!(a.1, b.1);
    assert_eq!(a.0, b.0);
}

#[test]
fn mated_position_has_no_best_move() {
    let mut p = empty_board();
    p.black_king = bit(0); // a8
    p.white_queens = bit(56); // a1
    p.white_rooks = bit(57); // b1
    p.white_king = bit(63); // h1
    p.side_to_move = Color::Black;
    let mut tt = SearchTT::new(1 << 10);
    assert!(best_move(&p, 3, &mut tt).is_none());
}

#[test]
fn queen_mate_in_one_is_found() {
    // White: king b6, queen h7; black: king a8.  Qb7 is mate.
    let mut p = empty_board();
    p.white_king = bit(17); // b6
    p.white_queens = bit(15); // h7
    p.black_king = bit(0); // a8
    let mut tt = SearchTT::new(1 << 12);
    assert_eq!(mate_in(&p, 3, &mut tt), Some(1));
    let (_, score) = best_move(&p, 3, &mut tt).expect("white has moves");
    assert_eq!(score, MATE_SCORE - 1);
}

#[test]
fn evaluate_balanced_start_is_zero() {
    let p = Position::starting();
    assert_eq!(evaluate(&p), 0);
}

#[test]
fn evaluate_counts_material_for_the_mover() {
    let mut p = Position::starting();
    p.black_queens = Bitboard(0);
    assert_eq!(evaluate(&p), 900);
    p.side_to_move = Color::Black;
    assert_eq!(evaluate(&p), -900);
}

#[test]
fn tt_store_probe_and_clear() {
    let mut tt = SearchTT::new(8);
    assert!(tt.probe(42).is_none());
    let e = TTEntry {
        fingerprint: 42,
        depth: 3,
        score: 123,
        bound: BoundKind::Exact,
        best_move: None,
    };
    tt.store(e);
    assert_eq!(tt.probe(42), Some(e));
    // A colliding fingerprint in the same slot misses, then evicts.
    assert!(tt.probe(42 + 8).is_none());
    let e2 = TTEntry {
        fingerprint: 42 + 8,
        depth: 1,
        score: -5,
        bound: BoundKind::Lower,
        best_move: None,
    };
    tt.store(e2);
    assert!(tt.probe(42).is_none());
    assert_eq!(tt.probe(42 + 8), Some(e2));
    tt.clear();
    assert!(tt.probe(42 + 8).is_none());
}

#[test]
fn fingerprint_tracks_position_state() {
    let p = Position::starting();
    let q = Position::starting();
    assert_eq!(fingerprint(&p), fingerprint(&q));
    let mut r = Position::starting();
    r.side_to_move = Color::Black;
    assert_ne!(fingerprint(&p), fingerprint(&r));
    let mut s = Position::starting();
    s.castle_white_king = false;
    assert_ne!(fingerprint(&p), fingerprint(&s));
}

#[test]
fn ordering_puts_captures_before_quiet_moves() {
    // White queen on d1 can capture the pawn on d5; every other move is
    // quiet, so a capture must come out first.
    let mut p = empty_board();
    p.white_queens = bit(59); // d1
    p.white_king = bit(63); // h1
    p.black_pawns = bit(27); // d5
    p.black_king = bit(7); // h8
    let moves = generate(&p);
    assert!(moves.iter().any(|m| matches!(m.flag, MoveFlag::Capture(_))));
    let ordered = order(moves, &p, None);
    assert!(matches!(ordered[0].flag, MoveFlag::Capture(_)));
}

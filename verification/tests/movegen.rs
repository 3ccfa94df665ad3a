use chess_core::bitboard::Bitboard;
use chess_core::move_generator::moves::{Color, MoveFlag, PieceKind};
use chess_core::move_generator::{generate, in_check, status_of, GameStatus};
use chess_core::position::Position;

fn perft(p: &mut Position, depth: u32) -> u64 {
    if depth == 0 {
        return 1;
    }
    let moves = generate(p);
    if depth == 1 {
        return moves.len() as u64;
    }
    let mut nodes: u64 = 0;
    for m in moves.iter() {
        let u = p.make(m);
        nodes += perft(p, depth - 1);
        p.unmake(m, &u);
    }
    nodes
}

fn bit(square: u8) -> Bitboard {
    Bitboard(1u64 << (63 - square as u32))
}

fn empty_board() -> Position {
    Position {
        white_pawns: Bitboard(0),
        white_knights: Bitboard(0),
        white_bishops: Bitboard(0),
        white_rooks: Bitboard(0),
        white_queens: Bitboard(0),
        white_king: Bitboard(0),
        black_pawns: Bitboard(0),
        black_knights: Bitboard(0),
        black_bishops: Bitboard(0),
        black_rooks: Bitboard(0),
        black_queens: Bitboard(0),
        black_king: Bitboard(0),
        side_to_move: Color::White,
        castle_white_king: false,
        castle_white_queen: false,
        castle_black_king: false,
        castle_black_queen: false,
        en_passant: None,
        halfmove_clock: 0,
        fullmove_number: 1,
    }
}

#[test]
fn perft_depth_1_is_20() {
    let mut p = Position::starting();
    assert_eq!(perft(&mut p, 1), 20);
}

#[test]
fn perft_depth_2_is_400() {
    let mut p = Position::starting();
    assert_eq!(perft(&mut p, 2), 400);
}

#[test]
fn perft_depth_3_is_8902() {
    let mut p = Position::starting();
    assert_eq!(perft(&mut p, 3), 8902);
}

#[test]
fn perft_depth_4_is_197281() {
    let mut p = Position::starting();
    assert_eq!(perft(&mut p, 4), 197_281);
}

#[test]
fn make_unmake_round_trip_every_move() {
    let mut p = Position::starting();
    let before = p;
    for m in generate(&p).iter() {
        let u = p.make(m);
        assert_ne!(p, before);
        p.unmake(m, &u);
        assert_eq!(p, before);
    }
}

#[test]
fn make_unmake_round_trip_deep() {
    // Walk the first legal move at each ply three plies down and back.
    let mut p = Position::starting();
    let before = p;
    let m1 = generate(&p)[0];
    let u1 = p.make(&m1);
    let s1 = p;
    let m2 = generate(&p)[0];
    let u2 = p.make(&m2);
    let s2 = p;
    let m3 = generate(&p)[0];
    let u3 = p.make(&m3);
    p.unmake(&m3, &u3);
    assert_eq!(p, s2);
    p.unmake(&m2, &u2);
    assert_eq!(p, s1);
    p.unmake(&m1, &u1);
    assert_eq!(p, before);
}

#[test]
fn starting_position_not_in_check() {
    let p = Position::starting();
    assert!(!in_check(&p, Color::White));
    assert!(!in_check(&p, Color::Black));
    assert_eq!(status_of(&p), GameStatus::Ongoing);
}

#[test]
fn back_rank_queen_mate_is_checkmate() {
    // Black king on a8, attacked along the open a-file by the queen on
    // a1; the rook on b1 seals the b-file.  Black has no legal move.
    let mut p = empty_board();
    p.black_king = bit(0); // a8
    p.white_queens = bit(56); // a1
    p.white_rooks = bit(57); // b1
    p.white_king = bit(63); // h1
    p.side_to_move = Color::Black;
    assert!(in_check(&p, Color::Black));
    assert_eq!(generate(&p).len(), 0);
    assert_eq!(status_of(&p), GameStatus::Checkmate);
}

#[test]
fn cornered_king_without_check_is_stalemate() {
    // Black king on a8, white queen on b6: every king move is covered but
    // the king is not attacked.
    let mut p = empty_board();
    p.black_king = bit(0); // a8
    p.white_queens = bit(17); // b6
    p.white_king = bit(63); // h1
    p.side_to_move = Color::Black;
    assert!(!in_check(&p, Color::Black));
    assert_eq!(generate(&p).len(), 0);
    assert_eq!(status_of(&p), GameStatus::Stalemate);
}

#[test]
fn castling_counted_from_clear_home_rank() {
    // White with only king and rooks on their start squares: the five
    // king steps, two castles, and the rook moves.
    let mut p = empty_board();
    p.white_king = bit(60); // e1
    p.white_rooks = Bitboard(bit(56).0 | bit(63).0); // a1 h1
    p.black_king = bit(4); // e8
    p.castle_white_king = true;
    p.castle_white_queen = true;
    let moves = generate(&p);
    // Kd1 Kd2 Ke2 Kf2 Kf1, O-O, O-O-O, and 10 moves of two rooks each.
    assert_eq!(moves.len(), 5 + 2 + 19);
}

#[test]
fn en_passant_capture_appears_and_reverts() {
    // White pawn e5, black answers d7-d5: white may take d6 en passant.
    let mut p = empty_board();
    p.white_pawns = bit(28); // e5
    p.black_pawns = bit(11); // d7
    p.white_king = bit(60); // e1
    p.black_king = bit(4); // e8
    p.side_to_move = Color::Black;
    let double = generate(&p)
        .into_iter()
        .find(|m| matches!(m.flag, MoveFlag::PawnDoubleMove(_)))
        .expect("double move available");
    let u = p.make(&double);
    assert_eq!(p.en_passant, Some(19)); // d6
    let before = p;
    let ep = generate(&p)
        .into_iter()
        .find(|m| matches!(m.flag, MoveFlag::EnPassantCapture(_)))
        .expect("en passant available");
    let u2 = p.make(&ep);
    // The captured pawn vanishes from d5, not from the target square d6.
    assert!(p.black_pawns.is_empty());
    p.unmake(&ep, &u2);
    assert_eq!(p, before);
    p.unmake(&double, &u);
    assert_eq!(p.en_passant, None);
}

#[test]
fn promotion_moves_offer_four_pieces() {
    let mut p = empty_board();
    p.white_pawns = bit(8); // a7
    p.white_king = bit(60); // e1
    p.black_king = bit(7); // h8
    let promos: Vec<PieceKind> = generate(&p)
        .into_iter()
        .filter_map(|m| match m.flag {
            MoveFlag::Promotion(np) => Some(np.kind),
            _ => None,
        })
        .collect();
    assert_eq!(promos.len(), 4);
    assert!(promos.contains(&PieceKind::Queen));
    assert!(promos.contains(&PieceKind::Rook));
    assert!(promos.contains(&PieceKind::Bishop));
    assert!(promos.contains(&PieceKind::Knight));
}

#[test]
fn perft_depth_5_is_4865609() {
    let mut p = Position::starting();
    assert_eq!(perft(&mut p, 5), 4_865_609);
}

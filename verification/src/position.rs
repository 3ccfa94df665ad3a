//! Board state: per-piece occupancy bitboards, side to move, castling
//! rights, en-passant target and move counters, with reversible
//! make/unmake used by the depth-first search.

use vstd::prelude::*;
use crate::bitboard::{bb_has, group_bb_algebra, lemma_bb_empty, lemma_bb_or, lemma_bb_xor, lemma_sq_bit, lemma_xor_cancel, lemma_xor_cancel2, sq_bit, Bitboard, Square, MSB_BIT};
use crate::move_generator::moves::{Color, Move, MoveFlag, Piece, PieceKind};

verus! {

broadcast use group_bb_algebra;

/// The full state of a game at one ply.
#[derive(Clone, Copy, PartialEq, Eq, Debug)]
pub struct Position {
    pub white_pawns: Bitboard,
    pub white_knights: Bitboard,
    pub white_bishops: Bitboard,
    pub white_rooks: Bitboard,
    pub white_queens: Bitboard,
    pub white_king: Bitboard,
    pub black_pawns: Bitboard,
    pub black_knights: Bitboard,
    pub black_bishops: Bitboard,
    pub black_rooks: Bitboard,
    pub black_queens: Bitboard,
    pub black_king: Bitboard,
    pub side_to_move: Color,
    pub castle_white_king: bool,
    pub castle_white_queen: bool,
    pub castle_black_king: bool,
    pub castle_black_queen: bool,
    pub en_passant: Option<Square>,
    pub halfmove_clock: u32,
    pub fullmove_number: u32,
}

/// The occupancy word of one piece.
pub open spec fn spec_board(p: Position, pc: Piece) -> u64 {
    match pc.color {
        Color::White => match pc.kind {
            PieceKind::Pawn => p.white_pawns.0,
            PieceKind::Knight => p.white_knights.0,
            PieceKind::Bishop => p.white_bishops.0,
            PieceKind::Rook => p.white_rooks.0,
            PieceKind::Queen => p.white_queens.0,
            PieceKind::King => p.white_king.0,
        },
        Color::Black => match pc.kind {
            PieceKind::Pawn => p.black_pawns.0,
            PieceKind::Knight => p.black_knights.0,
            PieceKind::Bishop => p.black_bishops.0,
            PieceKind::Rook => p.black_rooks.0,
            PieceKind::Queen => p.black_queens.0,
            PieceKind::King => p.black_king.0,
        },
    }
}

/// The position with one piece's occupancy word xor-ed by a mask.
pub open spec fn spec_xor_board(p: Position, pc: Piece, mask: u64) -> Position {
    match pc.color {
        Color::White => match pc.kind {
            PieceKind::Pawn => Position { white_pawns: Bitboard(p.white_pawns.0 ^ mask), ..p },
            PieceKind::Knight => Position {
                white_knights: Bitboard(p.white_knights.0 ^ mask),
                ..p
            },
            PieceKind::Bishop => Position {
                white_bishops: Bitboard(p.white_bishops.0 ^ mask),
                ..p
            },
            PieceKind::Rook => Position { white_rooks: Bitboard(p.white_rooks.0 ^ mask), ..p },
            PieceKind::Queen => Position { white_queens: Bitboard(p.white_queens.0 ^ mask), ..p },
            PieceKind::King => Position { white_king: Bitboard(p.white_king.0 ^ mask), ..p },
        },
        Color::Black => match pc.kind {
            PieceKind::Pawn => Position { black_pawns: Bitboard(p.black_pawns.0 ^ mask), ..p },
            PieceKind::Knight => Position {
                black_knights: Bitboard(p.black_knights.0 ^ mask),
                ..p
            },
            PieceKind::Bishop => Position {
                black_bishops: Bitboard(p.black_bishops.0 ^ mask),
                ..p
            },
            PieceKind::Rook => Position { black_rooks: Bitboard(p.black_rooks.0 ^ mask), ..p },
            PieceKind::Queen => Position { black_queens: Bitboard(p.black_queens.0 ^ mask), ..p },
            PieceKind::King => Position { black_king: Bitboard(p.black_king.0 ^ mask), ..p },
        },
    }
}

/// All squares held by one side.
pub open spec fn spec_color_occ(p: Position, c: Color) -> u64 {
    match c {
        Color::White => p.white_pawns.0 | p.white_knights.0 | p.white_bishops.0 | p.white_rooks.0
            | p.white_queens.0 | p.white_king.0,
        Color::Black => p.black_pawns.0 | p.black_knights.0 | p.black_bishops.0 | p.black_rooks.0
            | p.black_queens.0 | p.black_king.0,
    }
}

/// All occupied squares.
pub open spec fn spec_occ(p: Position) -> u64 {
    spec_color_occ(p, Color::White) | spec_color_occ(p, Color::Black)
}

/// Whether a square is occupied by any piece.
pub open spec fn occupied(p: Position, s: Square) -> bool {
    bb_has(spec_occ(p), s)
}

/// No square is held by two distinct piece boards.
pub open spec fn wf_boards(p: Position) -> bool {
    forall|pc1: Piece, pc2: Piece, s: Square|
        s < 64 && #[trigger] bb_has(spec_board(p, pc1), s) && #[trigger] bb_has(
            spec_board(p, pc2),
            s,
        ) ==> pc1 == pc2
}

/// Each side has a king on the board.
pub open spec fn kings_present(p: Position) -> bool {
    &&& spec_board(p, Piece { color: Color::White, kind: PieceKind::King }) != 0
    &&& spec_board(p, Piece { color: Color::Black, kind: PieceKind::King }) != 0
}

/// Structural validity of a position: the piece boards are pairwise
/// disjoint, both kings are on the board, and the en-passant target, if
/// set, is a real square.
pub open spec fn wf(p: Position) -> bool {
    &&& wf_boards(p)
    &&& kings_present(p)
    &&& match p.en_passant {
        Some(s) => s < 64,
        None => true,
    }
}

/// Start square of the king.
pub open spec fn king_start(c: Color) -> Square {
    match c {
        Color::White => 60,
        Color::Black => 4,
    }
}

/// Target square of the king in a kingside castle.
pub open spec fn kc_king_to(c: Color) -> Square {
    match c {
        Color::White => 62,
        Color::Black => 6,
    }
}

/// Start square of the rook in a kingside castle.
pub open spec fn kc_rook_from(c: Color) -> Square {
    match c {
        Color::White => 63,
        Color::Black => 7,
    }
}

/// Target square of the rook in a kingside castle.
pub open spec fn kc_rook_to(c: Color) -> Square {
    match c {
        Color::White => 61,
        Color::Black => 5,
    }
}

/// Target square of the king in a queenside castle.
pub open spec fn qc_king_to(c: Color) -> Square {
    match c {
        Color::White => 58,
        Color::Black => 2,
    }
}

/// Start square of the rook in a queenside castle.
pub open spec fn qc_rook_from(c: Color) -> Square {
    match c {
        Color::White => 56,
        Color::Black => 0,
    }
}

/// Target square of the rook in a queenside castle.
pub open spec fn qc_rook_to(c: Color) -> Square {
    match c {
        Color::White => 59,
        Color::Black => 3,
    }
}

/// The square the rook passes over only in a queenside castle.
pub open spec fn qc_pass(c: Color) -> Square {
    match c {
        Color::White => 57,
        Color::Black => 1,
    }
}

/// What a move demands of a position for applying and reverting it to be
/// meaningful: the moved piece stands on its start square, the target is
/// empty or holds exactly the announced capture, and the special variants
/// find the board as their variant describes.
pub open spec fn applicable(p: Position, m: Move) -> bool {
    &&& m.from < 64
    &&& m.to < 64
    &&& m.from != m.to
    &&& m.piece.color == p.side_to_move
    &&& bb_has(spec_board(p, m.piece), m.from)
    &&& match m.flag {
        MoveFlag::Quiet => !occupied(p, m.to),
        MoveFlag::Capture(cp) => {
            &&& cp.color == p.side_to_move.spec_opposite()
            &&& cp.kind != PieceKind::King
            &&& bb_has(spec_board(p, cp), m.to)
        },
        MoveFlag::Promotion(np) => {
            &&& m.piece.kind == PieceKind::Pawn
            &&& np.color == m.piece.color
            &&& np.kind != PieceKind::Pawn
            &&& np.kind != PieceKind::King
            &&& !occupied(p, m.to)
        },
        MoveFlag::CapturePromotion(cp, np) => {
            &&& m.piece.kind == PieceKind::Pawn
            &&& cp.color == p.side_to_move.spec_opposite()
            &&& cp.kind != PieceKind::King
            &&& bb_has(spec_board(p, cp), m.to)
            &&& np.color == m.piece.color
            &&& np.kind != PieceKind::Pawn
            &&& np.kind != PieceKind::King
        },
        MoveFlag::PawnDoubleMove(ep) => {
            &&& m.piece.kind == PieceKind::Pawn
            &&& ep < 64
            &&& !occupied(p, m.to)
        },
        MoveFlag::EnPassantCapture(cs) => {
            &&& m.piece.kind == PieceKind::Pawn
            &&& cs < 64
            &&& cs != m.from
            &&& cs != m.to
            &&& bb_has(
                spec_board(
                    p,
                    Piece { color: p.side_to_move.spec_opposite(), kind: PieceKind::Pawn },
                ),
                cs,
            )
            &&& !occupied(p, m.to)
        },
        MoveFlag::KingCastle => {
            &&& m.piece.kind == PieceKind::King
            &&& m.from == king_start(m.piece.color)
            &&& m.to == kc_king_to(m.piece.color)
            &&& bb_has(
                spec_board(p, Piece { color: m.piece.color, kind: PieceKind::Rook }),
                kc_rook_from(m.piece.color),
            )
            &&& !occupied(p, kc_rook_to(m.piece.color))
            &&& !occupied(p, m.to)
        },
        MoveFlag::QueenCastle => {
            &&& m.piece.kind == PieceKind::King
            &&& m.from == king_start(m.piece.color)
            &&& m.to == qc_king_to(m.piece.color)
            &&& bb_has(
                spec_board(p, Piece { color: m.piece.color, kind: PieceKind::Rook }),
                qc_rook_from(m.piece.color),
            )
            &&& !occupied(p, qc_rook_to(m.piece.color))
            &&& !occupied(p, qc_pass(m.piece.color))
            &&& !occupied(p, m.to)
        },
    }
}

/// The piece-board changes of a move, applied as xor masks; applying them
/// twice restores the boards.
pub open spec fn spec_apply_pieces(p: Position, m: Move) -> Position {
    let mover_mask = sq_bit(m.from) | sq_bit(m.to);
    match m.flag {
        MoveFlag::Quiet => spec_xor_board(p, m.piece, mover_mask),
        MoveFlag::Capture(cp) => spec_xor_board(
            spec_xor_board(p, m.piece, mover_mask),
            cp,
            sq_bit(m.to),
        ),
        MoveFlag::Promotion(np) => spec_xor_board(
            spec_xor_board(p, m.piece, sq_bit(m.from)),
            np,
            sq_bit(m.to),
        ),
        MoveFlag::CapturePromotion(cp, np) => spec_xor_board(
            spec_xor_board(spec_xor_board(p, m.piece, sq_bit(m.from)), np, sq_bit(m.to)),
            cp,
            sq_bit(m.to),
        ),
        MoveFlag::PawnDoubleMove(_) => spec_xor_board(p, m.piece, mover_mask),
        MoveFlag::EnPassantCapture(cs) => spec_xor_board(
            spec_xor_board(p, m.piece, mover_mask),
            Piece { color: m.piece.color.spec_opposite(), kind: PieceKind::Pawn },
            sq_bit(cs),
        ),
        MoveFlag::KingCastle => spec_xor_board(
            spec_xor_board(p, m.piece, mover_mask),
            Piece { color: m.piece.color, kind: PieceKind::Rook },
            sq_bit(kc_rook_from(m.piece.color)) | sq_bit(kc_rook_to(m.piece.color)),
        ),
        MoveFlag::QueenCastle => spec_xor_board(
            spec_xor_board(p, m.piece, mover_mask),
            Piece { color: m.piece.color, kind: PieceKind::Rook },
            sq_bit(qc_rook_from(m.piece.color)) | sq_bit(qc_rook_to(m.piece.color)),
        ),
    }
}

/// Whether the move resets the fifty-move clock: a pawn move or a capture.
pub open spec fn resets_clock(m: Move) -> bool {
    ||| m.piece.kind == PieceKind::Pawn
    ||| m.flag matches MoveFlag::Capture(_)
    ||| m.flag matches MoveFlag::CapturePromotion(_, _)
    ||| m.flag matches MoveFlag::EnPassantCapture(_)
}

/// The new en-passant target after a move: set only by a pawn double move.
pub open spec fn new_en_passant(m: Move) -> Option<Square> {
    match m.flag {
        MoveFlag::PawnDoubleMove(ep) => Some(ep),
        _ => None,
    }
}

/// A castling right survives a move unless the move touches the king start
/// square or the rook corner that the right depends on.
pub open spec fn keeps_right(m: Move, king_sq: Square, corner: Square) -> bool {
    m.from != king_sq && m.from != corner && m.to != corner
}

/// The position after a move: piece boards xor-ed, side to move flipped,
/// castling rights and en-passant and counters updated.
pub open spec fn spec_make(p: Position, m: Move) -> Position {
    let q = spec_apply_pieces(p, m);
    Position {
        side_to_move: p.side_to_move.spec_opposite(),
        en_passant: new_en_passant(m),
        castle_white_king: p.castle_white_king && keeps_right(m, 60, 63),
        castle_white_queen: p.castle_white_queen && keeps_right(m, 60, 56),
        castle_black_king: p.castle_black_king && keeps_right(m, 4, 7),
        castle_black_queen: p.castle_black_queen && keeps_right(m, 4, 0),
        halfmove_clock: if resets_clock(m) {
            0
        } else {
            (p.halfmove_clock + 1) as u32
        },
        fullmove_number: if p.side_to_move == Color::Black {
            (p.fullmove_number + 1) as u32
        } else {
            p.fullmove_number
        },
        ..q
    }
}

/// What a move cannot recompute when it is taken back: the castling
/// rights, the en-passant target and the fifty-move clock as they stood
/// before the move.
#[derive(Clone, Copy, PartialEq, Eq, Debug)]
pub struct Undo {
    pub castle_white_king: bool,
    pub castle_white_queen: bool,
    pub castle_black_king: bool,
    pub castle_black_queen: bool,
    pub en_passant: Option<Square>,
    pub halfmove_clock: u32,
}

/// The undo record that making a move from `p` produces.
pub open spec fn spec_undo_of(p: Position) -> Undo {
    Undo {
        castle_white_king: p.castle_white_king,
        castle_white_queen: p.castle_white_queen,
        castle_black_king: p.castle_black_king,
        castle_black_queen: p.castle_black_queen,
        en_passant: p.en_passant,
        halfmove_clock: p.halfmove_clock,
    }
}

/// The position restored from a made move and its undo record: the same
/// piece-board xors applied again, the saved fields put back.
pub open spec fn spec_unmake(q: Position, m: Move, u: Undo) -> Position {
    let r = spec_apply_pieces(q, m);
    Position {
        side_to_move: q.side_to_move.spec_opposite(),
        en_passant: u.en_passant,
        castle_white_king: u.castle_white_king,
        castle_white_queen: u.castle_white_queen,
        castle_black_king: u.castle_black_king,
        castle_black_queen: u.castle_black_queen,
        halfmove_clock: u.halfmove_clock,
        fullmove_number: if q.side_to_move == Color::White {
            (q.fullmove_number - 1) as u32
        } else {
            q.fullmove_number
        },
        ..r
    }
}

/// Taking a move back with its undo record restores the position exactly,
/// field for field: occupancy boards, side to move, castling rights,
/// en-passant target and both counters.
pub proof fn lemma_make_unmake_roundtrip(p: Position, m: Move)
    requires
        p.fullmove_number < u32::MAX,
    ensures
        spec_unmake(spec_make(p, m), m, spec_undo_of(p)) == p,
{
    lemma_roundtrip_fields(p, m);
    match m.flag {
        MoveFlag::Quiet => lemma_roundtrip_plain(p, m),
        MoveFlag::PawnDoubleMove(_) => lemma_roundtrip_plain(p, m),
        MoveFlag::Capture(_) => lemma_roundtrip_capture(p, m),
        MoveFlag::Promotion(_) => lemma_roundtrip_promotion(p, m),
        MoveFlag::CapturePromotion(_, _) => lemma_roundtrip_capture_promotion(p, m),
        MoveFlag::EnPassantCapture(_) => lemma_roundtrip_en_passant(p, m),
        MoveFlag::KingCastle => lemma_roundtrip_castle(p, m),
        MoveFlag::QueenCastle => lemma_roundtrip_castle(p, m),
    }
}

/// The non-board fields come back: the side flips twice, the saved fields
/// are restored, and the fullmove counter steps back down.
proof fn lemma_roundtrip_fields(p: Position, m: Move)
    requires
        p.fullmove_number < u32::MAX,
    ensures
        spec_unmake(spec_make(p, m), m, spec_undo_of(p)).side_to_move == p.side_to_move,
        spec_unmake(spec_make(p, m), m, spec_undo_of(p)).fullmove_number == p.fullmove_number,
        spec_unmake(spec_make(p, m), m, spec_undo_of(p)).halfmove_clock == p.halfmove_clock,
        spec_unmake(spec_make(p, m), m, spec_undo_of(p)).en_passant == p.en_passant,
        spec_unmake(spec_make(p, m), m, spec_undo_of(p)).castle_white_king == p.castle_white_king,
        spec_unmake(spec_make(p, m), m, spec_undo_of(p)).castle_white_queen
            == p.castle_white_queen,
        spec_unmake(spec_make(p, m), m, spec_undo_of(p)).castle_black_king == p.castle_black_king,
        spec_unmake(spec_make(p, m), m, spec_undo_of(p)).castle_black_queen
            == p.castle_black_queen,
{
    match p.side_to_move {
        Color::White => {},
        Color::Black => {},
    }
}

/// Board round trip for the variants that move one piece and touch no
/// other board.
#[verifier::spinoff_prover]
proof fn lemma_roundtrip_plain(p: Position, m: Move)
    requires
        p.fullmove_number < u32::MAX,
        m.flag matches MoveFlag::Quiet || m.flag matches MoveFlag::PawnDoubleMove(_),
    ensures
        spec_unmake(spec_make(p, m), m, spec_undo_of(p)) == p,
{
    lemma_roundtrip_fields(p, m);
    lemma_xor_cancel(spec_board(p, m.piece), sq_bit(m.from) | sq_bit(m.to));
}

/// Board round trip for a plain capture.
#[verifier::spinoff_prover]
#[verifier::rlimit(100)]
proof fn lemma_roundtrip_capture(p: Position, m: Move)
    requires
        p.fullmove_number < u32::MAX,
        m.flag matches MoveFlag::Capture(_),
    ensures
        spec_unmake(spec_make(p, m), m, spec_undo_of(p)) == p,
{
    lemma_roundtrip_fields(p, m);
    let mover_mask = sq_bit(m.from) | sq_bit(m.to);
    let cp = m.flag->Capture_0;
    lemma_xor_cancel(spec_board(p, m.piece), mover_mask);
    lemma_xor_cancel(spec_board(p, cp), sq_bit(m.to));
    if cp == m.piece {
        lemma_xor_cancel2(spec_board(p, m.piece), mover_mask, sq_bit(m.to));
    }
}

/// Board round trip for a promotion without a capture.
#[verifier::spinoff_prover]
proof fn lemma_roundtrip_promotion(p: Position, m: Move)
    requires
        p.fullmove_number < u32::MAX,
        m.flag matches MoveFlag::Promotion(_),
    ensures
        spec_unmake(spec_make(p, m), m, spec_undo_of(p)) == p,
{
    lemma_roundtrip_fields(p, m);
    let np = m.flag->Promotion_0;
    lemma_xor_cancel(spec_board(p, m.piece), sq_bit(m.from));
    lemma_xor_cancel(spec_board(p, np), sq_bit(m.to));
    if np == m.piece {
        lemma_xor_cancel2(spec_board(p, m.piece), sq_bit(m.from), sq_bit(m.to));
    }
}

/// Xor twice by two masks lands in the same place in either order.
proof fn lemma_xor_shuffle(a: u64, m1: u64, m2: u64)
    by (bit_vector)
    ensures
        (a ^ m1) ^ m2 == (a ^ m2) ^ m1,
{
}

/// How one board xor reads back on any piece: the touched board takes the
/// mask, every other board is unchanged.
proof fn lemma_board_update(p: Position, pc1: Piece, mask: u64, pc2: Piece)
    ensures
        pc1 == pc2 ==> spec_board(spec_xor_board(p, pc1, mask), pc2) == spec_board(p, pc2) ^ mask,
        pc1 != pc2 ==> spec_board(spec_xor_board(p, pc1, mask), pc2) == spec_board(p, pc2),
{
    match pc1.color {
        Color::White => match pc1.kind {
            PieceKind::Pawn => {},
            PieceKind::Knight => {},
            PieceKind::Bishop => {},
            PieceKind::Rook => {},
            PieceKind::Queen => {},
            PieceKind::King => {},
        },
        Color::Black => match pc1.kind {
            PieceKind::Pawn => {},
            PieceKind::Knight => {},
            PieceKind::Bishop => {},
            PieceKind::Rook => {},
            PieceKind::Queen => {},
            PieceKind::King => {},
        },
    }
}

/// Two positions with the same twelve boards read the same on any piece.
proof fn lemma_board_congr(a: Position, b: Position, pc1: Piece)
    requires
        a.white_pawns == b.white_pawns,
        a.white_knights == b.white_knights,
        a.white_bishops == b.white_bishops,
        a.white_rooks == b.white_rooks,
        a.white_queens == b.white_queens,
        a.white_king == b.white_king,
        a.black_pawns == b.black_pawns,
        a.black_knights == b.black_knights,
        a.black_bishops == b.black_bishops,
        a.black_rooks == b.black_rooks,
        a.black_queens == b.black_queens,
        a.black_king == b.black_king,
    ensures
        spec_board(a, pc1) == spec_board(b, pc1),
{
    match pc1.color {
        Color::White => match pc1.kind {
            PieceKind::Pawn => {},
            PieceKind::Knight => {},
            PieceKind::Bishop => {},
            PieceKind::Rook => {},
            PieceKind::Queen => {},
            PieceKind::King => {},
        },
        Color::Black => match pc1.kind {
            PieceKind::Pawn => {},
            PieceKind::Knight => {},
            PieceKind::Bishop => {},
            PieceKind::Rook => {},
            PieceKind::Queen => {},
            PieceKind::King => {},
        },
    }
}

/// Two positions that agree on every piece board and on every remaining
/// field are the same position.
proof fn lemma_pos_ext(a: Position, b: Position)
    requires
        forall|pc: Piece| #[trigger] spec_board(a, pc) == spec_board(b, pc),
        a.side_to_move == b.side_to_move,
        a.castle_white_king == b.castle_white_king,
        a.castle_white_queen == b.castle_white_queen,
        a.castle_black_king == b.castle_black_king,
        a.castle_black_queen == b.castle_black_queen,
        a.en_passant == b.en_passant,
        a.halfmove_clock == b.halfmove_clock,
        a.fullmove_number == b.fullmove_number,
    ensures
        a == b,
{
    assert(spec_board(a, Piece { color: Color::White, kind: PieceKind::Pawn }) == spec_board(b, Piece { color: Color::White, kind: PieceKind::Pawn }));
    assert(spec_board(a, Piece { color: Color::White, kind: PieceKind::Knight }) == spec_board(b, Piece { color: Color::White, kind: PieceKind::Knight }));
    assert(spec_board(a, Piece { color: Color::White, kind: PieceKind::Bishop }) == spec_board(b, Piece { color: Color::White, kind: PieceKind::Bishop }));
    assert(spec_board(a, Piece { color: Color::White, kind: PieceKind::Rook }) == spec_board(b, Piece { color: Color::White, kind: PieceKind::Rook }));
    assert(spec_board(a, Piece { color: Color::White, kind: PieceKind::Queen }) == spec_board(b, Piece { color: Color::White, kind: PieceKind::Queen }));
    assert(spec_board(a, Piece { color: Color::White, kind: PieceKind::King }) == spec_board(b, Piece { color: Color::White, kind: PieceKind::King }));
    assert(spec_board(a, Piece { color: Color::Black, kind: PieceKind::Pawn }) == spec_board(b, Piece { color: Color::Black, kind: PieceKind::Pawn }));
    assert(spec_board(a, Piece { color: Color::Black, kind: PieceKind::Knight }) == spec_board(b, Piece { color: Color::Black, kind: PieceKind::Knight }));
    assert(spec_board(a, Piece { color: Color::Black, kind: PieceKind::Bishop }) == spec_board(b, Piece { color: Color::Black, kind: PieceKind::Bishop }));
    assert(spec_board(a, Piece { color: Color::Black, kind: PieceKind::Rook }) == spec_board(b, Piece { color: Color::Black, kind: PieceKind::Rook }));
    assert(spec_board(a, Piece { color: Color::Black, kind: PieceKind::Queen }) == spec_board(b, Piece { color: Color::Black, kind: PieceKind::Queen }));
    assert(spec_board(a, Piece { color: Color::Black, kind: PieceKind::King }) == spec_board(b, Piece { color: Color::Black, kind: PieceKind::King }));
}

/// Board round trip for a capture that is also a promotion.
#[verifier::spinoff_prover]
#[verifier::rlimit(100)]
proof fn lemma_roundtrip_capture_promotion(p: Position, m: Move)
    requires
        p.fullmove_number < u32::MAX,
        m.flag matches MoveFlag::CapturePromotion(_, _),
    ensures
        spec_unmake(spec_make(p, m), m, spec_undo_of(p)) == p,
{
    lemma_roundtrip_fields(p, m);
    let cp = m.flag->CapturePromotion_0;
    let np = m.flag->CapturePromotion_1;
    let f = sq_bit(m.from);
    let t = sq_bit(m.to);
    let a1 = spec_xor_board(p, m.piece, f);
    let a2 = spec_xor_board(a1, np, t);
    let a3 = spec_xor_board(a2, cp, t);
    let q = spec_make(p, m);
    let b1 = spec_xor_board(q, m.piece, f);
    let b2 = spec_xor_board(b1, np, t);
    let b3 = spec_xor_board(b2, cp, t);
    let r = spec_unmake(q, m, spec_undo_of(p));
    assert forall|pc: Piece| #[trigger] spec_board(r, pc) == spec_board(p, pc) by {
        lemma_board_update(p, m.piece, f, pc);
        lemma_board_update(a1, np, t, pc);
        lemma_board_update(a2, cp, t, pc);
        lemma_board_congr(q, a3, pc);
        lemma_board_update(q, m.piece, f, pc);
        lemma_board_update(b1, np, t, pc);
        lemma_board_update(b2, cp, t, pc);
        lemma_board_congr(r, b3, pc);
        let v = spec_board(p, pc);
        lemma_xor_cancel(v, f);
        lemma_xor_cancel(v, t);
        lemma_xor_cancel(v ^ f, t);
        lemma_xor_cancel(v ^ t, t);
        lemma_xor_shuffle(v ^ f, t, f);
        lemma_xor_shuffle(v, f, t);
        lemma_xor_cancel2(v, f, t);
        lemma_xor_cancel(v ^ f ^ t, t);
        lemma_xor_cancel((v ^ f) ^ t, t);
    }
    lemma_pos_ext(r, p);
}

/// Board round trip for an en-passant capture.
#[verifier::spinoff_prover]
proof fn lemma_roundtrip_en_passant(p: Position, m: Move)
    requires
        p.fullmove_number < u32::MAX,
        m.flag matches MoveFlag::EnPassantCapture(_),
    ensures
        spec_unmake(spec_make(p, m), m, spec_undo_of(p)) == p,
{
    lemma_roundtrip_fields(p, m);
    let mover_mask = sq_bit(m.from) | sq_bit(m.to);
    let cs = m.flag->EnPassantCapture_0;
    let ep_pawn = Piece { color: m.piece.color.spec_opposite(), kind: PieceKind::Pawn };
    lemma_xor_cancel(spec_board(p, m.piece), mover_mask);
    lemma_xor_cancel(spec_board(p, ep_pawn), sq_bit(cs));
    if ep_pawn == m.piece {
        lemma_xor_cancel2(spec_board(p, m.piece), mover_mask, sq_bit(cs));
    }
}

/// Board round trip for both castle variants: king and rook each move by
/// an xor of two squares.
#[verifier::spinoff_prover]
proof fn lemma_roundtrip_castle(p: Position, m: Move)
    requires
        p.fullmove_number < u32::MAX,
        m.flag matches MoveFlag::KingCastle || m.flag matches MoveFlag::QueenCastle,
    ensures
        spec_unmake(spec_make(p, m), m, spec_undo_of(p)) == p,
{
    lemma_roundtrip_fields(p, m);
    let mover_mask = sq_bit(m.from) | sq_bit(m.to);
    let rook = Piece { color: m.piece.color, kind: PieceKind::Rook };
    let rook_mask = match m.flag {
        MoveFlag::KingCastle => sq_bit(kc_rook_from(m.piece.color)) | sq_bit(
            kc_rook_to(m.piece.color),
        ),
        _ => sq_bit(qc_rook_from(m.piece.color)) | sq_bit(qc_rook_to(m.piece.color)),
    };
    lemma_xor_cancel(spec_board(p, m.piece), mover_mask);
    lemma_xor_cancel(spec_board(p, rook), rook_mask);
    if rook == m.piece {
        lemma_xor_cancel2(spec_board(p, m.piece), mover_mask, rook_mask);
    }
}


/// The squares a move names are real board squares; every generated move
/// satisfies this, and applying or reverting a move needs it.
pub open spec fn move_squares_ok(m: Move) -> bool {
    &&& m.from < 64
    &&& m.to < 64
    &&& match m.flag {
        MoveFlag::PawnDoubleMove(ep) => ep < 64,
        MoveFlag::EnPassantCapture(cs) => cs < 64,
        _ => true,
    }
}

/// The first piece found on a square, probing the white boards then the
/// black ones.
pub open spec fn spec_piece_at(p: Position, s: Square) -> Option<Piece> {
    if bb_has(p.white_pawns.0, s) {
        Some(Piece { color: Color::White, kind: PieceKind::Pawn })
    } else if bb_has(p.white_knights.0, s) {
        Some(Piece { color: Color::White, kind: PieceKind::Knight })
    } else if bb_has(p.white_bishops.0, s) {
        Some(Piece { color: Color::White, kind: PieceKind::Bishop })
    } else if bb_has(p.white_rooks.0, s) {
        Some(Piece { color: Color::White, kind: PieceKind::Rook })
    } else if bb_has(p.white_queens.0, s) {
        Some(Piece { color: Color::White, kind: PieceKind::Queen })
    } else if bb_has(p.white_king.0, s) {
        Some(Piece { color: Color::White, kind: PieceKind::King })
    } else if bb_has(p.black_pawns.0, s) {
        Some(Piece { color: Color::Black, kind: PieceKind::Pawn })
    } else if bb_has(p.black_knights.0, s) {
        Some(Piece { color: Color::Black, kind: PieceKind::Knight })
    } else if bb_has(p.black_bishops.0, s) {
        Some(Piece { color: Color::Black, kind: PieceKind::Bishop })
    } else if bb_has(p.black_rooks.0, s) {
        Some(Piece { color: Color::Black, kind: PieceKind::Rook })
    } else if bb_has(p.black_queens.0, s) {
        Some(Piece { color: Color::Black, kind: PieceKind::Queen })
    } else if bb_has(p.black_king.0, s) {
        Some(Piece { color: Color::Black, kind: PieceKind::King })
    } else {
        None
    }
}

/// The board as it stands at the start of a game.
pub open spec fn spec_starting() -> Position {
    Position {
        white_pawns: Bitboard(0x0000_0000_0000_FF00),
        white_knights: Bitboard(0x0000_0000_0000_0042),
        white_bishops: Bitboard(0x0000_0000_0000_0024),
        white_rooks: Bitboard(0x0000_0000_0000_0081),
        white_queens: Bitboard(0x0000_0000_0000_0010),
        white_king: Bitboard(0x0000_0000_0000_0008),
        black_pawns: Bitboard(0x00FF_0000_0000_0000),
        black_knights: Bitboard(0x4200_0000_0000_0000),
        black_bishops: Bitboard(0x2400_0000_0000_0000),
        black_rooks: Bitboard(0x8100_0000_0000_0000),
        black_queens: Bitboard(0x1000_0000_0000_0000),
        black_king: Bitboard(0x0800_0000_0000_0000),
        side_to_move: Color::White,
        castle_white_king: true,
        castle_white_queen: true,
        castle_black_king: true,
        castle_black_queen: true,
        en_passant: None,
        halfmove_clock: 0,
        fullmove_number: 1,
    }
}

impl Position {
    /// The standard starting position.
    pub fn starting() -> (r: Position)
        ensures
            r == spec_starting(),
            wf(r),
    {
        proof {
            lemma_starting_wf();
        }
        Position {
            white_pawns: Bitboard(0x0000_0000_0000_FF00),
            white_knights: Bitboard(0x0000_0000_0000_0042),
            white_bishops: Bitboard(0x0000_0000_0000_0024),
            white_rooks: Bitboard(0x0000_0000_0000_0081),
            white_queens: Bitboard(0x0000_0000_0000_0010),
            white_king: Bitboard(0x0000_0000_0000_0008),
            black_pawns: Bitboard(0x00FF_0000_0000_0000),
            black_knights: Bitboard(0x4200_0000_0000_0000),
            black_bishops: Bitboard(0x2400_0000_0000_0000),
            black_rooks: Bitboard(0x8100_0000_0000_0000),
            black_queens: Bitboard(0x1000_0000_0000_0000),
            black_king: Bitboard(0x0800_0000_0000_0000),
            side_to_move: Color::White,
            castle_white_king: true,
            castle_white_queen: true,
            castle_black_king: true,
            castle_black_queen: true,
            en_passant: None,
            halfmove_clock: 0,
            fullmove_number: 1,
        }
    }

    /// The occupancy board of one piece.
    pub fn board(&self, pc: Piece) -> (r: Bitboard)
        ensures
            r.0 == spec_board(*self, pc),
    {
        match pc.color {
            Color::White => match pc.kind {
                PieceKind::Pawn => self.white_pawns,
                PieceKind::Knight => self.white_knights,
                PieceKind::Bishop => self.white_bishops,
                PieceKind::Rook => self.white_rooks,
                PieceKind::Queen => self.white_queens,
                PieceKind::King => self.white_king,
            },
            Color::Black => match pc.kind {
                PieceKind::Pawn => self.black_pawns,
                PieceKind::Knight => self.black_knights,
                PieceKind::Bishop => self.black_bishops,
                PieceKind::Rook => self.black_rooks,
                PieceKind::Queen => self.black_queens,
                PieceKind::King => self.black_king,
            },
        }
    }

    /// Xor one piece board by a mask.
    fn xor_board(&mut self, pc: Piece, mask: u64)
        ensures
            *final(self) == spec_xor_board(*old(self), pc, mask),
    {
        match pc.color {
            Color::White => match pc.kind {
                PieceKind::Pawn => self.white_pawns = Bitboard(self.white_pawns.0 ^ mask),
                PieceKind::Knight => self.white_knights = Bitboard(self.white_knights.0 ^ mask),
                PieceKind::Bishop => self.white_bishops = Bitboard(self.white_bishops.0 ^ mask),
                PieceKind::Rook => self.white_rooks = Bitboard(self.white_rooks.0 ^ mask),
                PieceKind::Queen => self.white_queens = Bitboard(self.white_queens.0 ^ mask),
                PieceKind::King => self.white_king = Bitboard(self.white_king.0 ^ mask),
            },
            Color::Black => match pc.kind {
                PieceKind::Pawn => self.black_pawns = Bitboard(self.black_pawns.0 ^ mask),
                PieceKind::Knight => self.black_knights = Bitboard(self.black_knights.0 ^ mask),
                PieceKind::Bishop => self.black_bishops = Bitboard(self.black_bishops.0 ^ mask),
                PieceKind::Rook => self.black_rooks = Bitboard(self.black_rooks.0 ^ mask),
                PieceKind::Queen => self.black_queens = Bitboard(self.black_queens.0 ^ mask),
                PieceKind::King => self.black_king = Bitboard(self.black_king.0 ^ mask),
            },
        }
    }

    /// All squares held by one side.
    pub fn color_occupancy(&self, c: Color) -> (r: Bitboard)
        ensures
            r.0 == spec_color_occ(*self, c),
    {
        match c {
            Color::White => Bitboard(
                self.white_pawns.0 | self.white_knights.0 | self.white_bishops.0
                    | self.white_rooks.0 | self.white_queens.0 | self.white_king.0,
            ),
            Color::Black => Bitboard(
                self.black_pawns.0 | self.black_knights.0 | self.black_bishops.0
                    | self.black_rooks.0 | self.black_queens.0 | self.black_king.0,
            ),
        }
    }

    /// All occupied squares.
    pub fn occupancy(&self) -> (r: Bitboard)
        ensures
            r.0 == spec_occ(*self),
    {
        Bitboard(self.color_occupancy(Color::White).0 | self.color_occupancy(Color::Black).0)
    }

    /// The piece standing on a square, if any.
    pub fn piece_at(&self, s: Square) -> (r: Option<Piece>)
        requires
            s < 64,
        ensures
            r == spec_piece_at(*self, s),
            r matches Some(pc) ==> bb_has(spec_board(*self, pc), s),
            r is None <==> !occupied(*self, s),
    {
        proof {
            lemma_piece_at_occupied(*self, s);
        }
        let probe: u64 = MSB_BIT >> s;
        if self.white_pawns.0 & probe != 0 {
            Some(Piece { color: Color::White, kind: PieceKind::Pawn })
        } else if self.white_knights.0 & probe != 0 {
            Some(Piece { color: Color::White, kind: PieceKind::Knight })
        } else if self.white_bishops.0 & probe != 0 {
            Some(Piece { color: Color::White, kind: PieceKind::Bishop })
        } else if self.white_rooks.0 & probe != 0 {
            Some(Piece { color: Color::White, kind: PieceKind::Rook })
        } else if self.white_queens.0 & probe != 0 {
            Some(Piece { color: Color::White, kind: PieceKind::Queen })
        } else if self.white_king.0 & probe != 0 {
            Some(Piece { color: Color::White, kind: PieceKind::King })
        } else if self.black_pawns.0 & probe != 0 {
            Some(Piece { color: Color::Black, kind: PieceKind::Pawn })
        } else if self.black_knights.0 & probe != 0 {
            Some(Piece { color: Color::Black, kind: PieceKind::Knight })
        } else if self.black_bishops.0 & probe != 0 {
            Some(Piece { color: Color::Black, kind: PieceKind::Bishop })
        } else if self.black_rooks.0 & probe != 0 {
            Some(Piece { color: Color::Black, kind: PieceKind::Rook })
        } else if self.black_queens.0 & probe != 0 {
            Some(Piece { color: Color::Black, kind: PieceKind::Queen })
        } else if self.black_king.0 & probe != 0 {
            Some(Piece { color: Color::Black, kind: PieceKind::King })
        } else {
            None
        }
    }

    /// Applies a move in place and returns the undo record that takes it
    /// back; the result is exactly `spec_make` of the previous state.
    pub fn make(&mut self, m: &Move) -> (u: Undo)
        requires
            move_squares_ok(*m),
            old(self).fullmove_number < u32::MAX,
            old(self).halfmove_clock < u32::MAX,
        ensures
            *final(self) == spec_make(*old(self), *m),
            u == spec_undo_of(*old(self)),
            wf(*old(self)) && applicable(*old(self), *m) ==> wf(*final(self)),
    {
        proof {
            if wf(*old(self)) && applicable(*old(self), *m) {
                lemma_make_preserves_wf(*old(self), *m);
            }
        }
        let u = Undo {
            castle_white_king: self.castle_white_king,
            castle_white_queen: self.castle_white_queen,
            castle_black_king: self.castle_black_king,
            castle_black_queen: self.castle_black_queen,
            en_passant: self.en_passant,
            halfmove_clock: self.halfmove_clock,
        };
        self.apply_pieces(m);
        self.en_passant = match m.flag {
            MoveFlag::PawnDoubleMove(ep) => Some(ep),
            _ => None,
        };
        let f = m.from;
        let t = m.to;
        self.castle_white_king = self.castle_white_king && !(f == 60 || f == 63 || t == 63);
        self.castle_white_queen = self.castle_white_queen && !(f == 60 || f == 56 || t == 56);
        self.castle_black_king = self.castle_black_king && !(f == 4 || f == 7 || t == 7);
        self.castle_black_queen = self.castle_black_queen && !(f == 4 || f == 0 || t == 0);
        let is_reset = match m.flag {
            MoveFlag::Capture(_) => true,
            MoveFlag::CapturePromotion(_, _) => true,
            MoveFlag::EnPassantCapture(_) => true,
            _ => m.piece.kind == PieceKind::Pawn,
        };
        self.halfmove_clock = if is_reset {
            0
        } else {
            self.halfmove_clock + 1
        };
        if self.side_to_move == Color::Black {
            self.fullmove_number = self.fullmove_number + 1;
        }
        self.side_to_move = self.side_to_move.opposite();
        u
    }

    /// Takes a move back with its undo record; the result is exactly
    /// `spec_unmake` of the state the move had produced.
    pub fn unmake(&mut self, m: &Move, u: &Undo)
        requires
            move_squares_ok(*m),
            old(self).side_to_move == Color::White ==> old(self).fullmove_number >= 1,
        ensures
            *final(self) == spec_unmake(*old(self), *m, *u),
    {
        self.apply_pieces(m);
        self.en_passant = u.en_passant;
        self.castle_white_king = u.castle_white_king;
        self.castle_white_queen = u.castle_white_queen;
        self.castle_black_king = u.castle_black_king;
        self.castle_black_queen = u.castle_black_queen;
        self.halfmove_clock = u.halfmove_clock;
        if self.side_to_move == Color::White {
            self.fullmove_number = self.fullmove_number - 1;
        }
        self.side_to_move = self.side_to_move.opposite();
    }

    /// The piece-board xors shared by applying and reverting a move.
    fn apply_pieces(&mut self, m: &Move)
        requires
            move_squares_ok(*m),
        ensures
            *final(self) == spec_apply_pieces(*old(self), *m),
    {
        let from_bit: u64 = MSB_BIT >> m.from;
        let to_bit: u64 = MSB_BIT >> m.to;
        match m.flag {
            MoveFlag::Quiet => self.xor_board(m.piece, from_bit | to_bit),
            MoveFlag::Capture(cp) => {
                self.xor_board(m.piece, from_bit | to_bit);
                self.xor_board(cp, to_bit);
            },
            MoveFlag::Promotion(np) => {
                self.xor_board(m.piece, from_bit);
                self.xor_board(np, to_bit);
            },
            MoveFlag::CapturePromotion(cp, np) => {
                self.xor_board(m.piece, from_bit);
                self.xor_board(np, to_bit);
                self.xor_board(cp, to_bit);
            },
            MoveFlag::PawnDoubleMove(_) => self.xor_board(m.piece, from_bit | to_bit),
            MoveFlag::EnPassantCapture(cs) => {
                self.xor_board(m.piece, from_bit | to_bit);
                let captured = Piece { color: m.piece.color.opposite(), kind: PieceKind::Pawn };
                self.xor_board(captured, MSB_BIT >> cs);
            },
            MoveFlag::KingCastle => {
                self.xor_board(m.piece, from_bit | to_bit);
                let rook = Piece { color: m.piece.color, kind: PieceKind::Rook };
                let rf: u8 = match m.piece.color {
                    Color::White => 63,
                    Color::Black => 7,
                };
                let rt: u8 = match m.piece.color {
                    Color::White => 61,
                    Color::Black => 5,
                };
                self.xor_board(rook, (MSB_BIT >> rf) | (MSB_BIT >> rt));
            },
            MoveFlag::QueenCastle => {
                self.xor_board(m.piece, from_bit | to_bit);
                let rook = Piece { color: m.piece.color, kind: PieceKind::Rook };
                let rf: u8 = match m.piece.color {
                    Color::White => 56,
                    Color::Black => 0,
                };
                let rt: u8 = match m.piece.color {
                    Color::White => 59,
                    Color::Black => 3,
                };
                self.xor_board(rook, (MSB_BIT >> rf) | (MSB_BIT >> rt));
            },
        }
    }
}

/// A square is free exactly when the probe of every board misses, which
/// ties the piece chain to the occupancy union.
proof fn lemma_piece_at_occupied(p: Position, s: Square)
    requires
        s < 64,
    ensures
        spec_piece_at(p, s) is None <==> !occupied(p, s),
        spec_piece_at(p, s) matches Some(pc) ==> bb_has(spec_board(p, pc), s),
{
}

/// The twelve starting boards are pairwise disjoint.
proof fn lemma_starting_disjoint()
    by (bit_vector)
    ensures
        0x0000_0000_0000_FF00u64 & 0x0000_0000_0000_0042u64 == 0,
        0x0000_0000_0000_FF00u64 & 0x0000_0000_0000_0024u64 == 0,
        0x0000_0000_0000_FF00u64 & 0x0000_0000_0000_0081u64 == 0,
        0x0000_0000_0000_FF00u64 & 0x0000_0000_0000_0010u64 == 0,
        0x0000_0000_0000_FF00u64 & 0x0000_0000_0000_0008u64 == 0,
        0x0000_0000_0000_FF00u64 & 0x00FF_0000_0000_0000u64 == 0,
        0x0000_0000_0000_FF00u64 & 0x4200_0000_0000_0000u64 == 0,
        0x0000_0000_0000_FF00u64 & 0x2400_0000_0000_0000u64 == 0,
        0x0000_0000_0000_FF00u64 & 0x8100_0000_0000_0000u64 == 0,
        0x0000_0000_0000_FF00u64 & 0x1000_0000_0000_0000u64 == 0,
        0x0000_0000_0000_FF00u64 & 0x0800_0000_0000_0000u64 == 0,
        0x0000_0000_0000_0042u64 & 0x0000_0000_0000_FF00u64 == 0,
        0x0000_0000_0000_0042u64 & 0x0000_0000_0000_0024u64 == 0,
        0x0000_0000_0000_0042u64 & 0x0000_0000_0000_0081u64 == 0,
        0x0000_0000_0000_0042u64 & 0x0000_0000_0000_0010u64 == 0,
        0x0000_0000_0000_0042u64 & 0x0000_0000_0000_0008u64 == 0,
        0x0000_0000_0000_0042u64 & 0x00FF_0000_0000_0000u64 == 0,
        0x0000_0000_0000_0042u64 & 0x4200_0000_0000_0000u64 == 0,
        0x0000_0000_0000_0042u64 & 0x2400_0000_0000_0000u64 == 0,
        0x0000_0000_0000_0042u64 & 0x8100_0000_0000_0000u64 == 0,
        0x0000_0000_0000_0042u64 & 0x1000_0000_0000_0000u64 == 0,
        0x0000_0000_0000_0042u64 & 0x0800_0000_0000_0000u64 == 0,
        0x0000_0000_0000_0024u64 & 0x0000_0000_0000_FF00u64 == 0,
        0x0000_0000_0000_0024u64 & 0x0000_0000_0000_0042u64 == 0,
        0x0000_0000_0000_0024u64 & 0x0000_0000_0000_0081u64 == 0,
        0x0000_0000_0000_0024u64 & 0x0000_0000_0000_0010u64 == 0,
        0x0000_0000_0000_0024u64 & 0x0000_0000_0000_0008u64 == 0,
        0x0000_0000_0000_0024u64 & 0x00FF_0000_0000_0000u64 == 0,
        0x0000_0000_0000_0024u64 & 0x4200_0000_0000_0000u64 == 0,
        0x0000_0000_0000_0024u64 & 0x2400_0000_0000_0000u64 == 0,
        0x0000_0000_0000_0024u64 & 0x8100_0000_0000_0000u64 == 0,
        0x0000_0000_0000_0024u64 & 0x1000_0000_0000_0000u64 == 0,
        0x0000_0000_0000_0024u64 & 0x0800_0000_0000_0000u64 == 0,
        0x0000_0000_0000_0081u64 & 0x0000_0000_0000_FF00u64 == 0,
        0x0000_0000_0000_0081u64 & 0x0000_0000_0000_0042u64 == 0,
        0x0000_0000_0000_0081u64 & 0x0000_0000_0000_0024u64 == 0,
        0x0000_0000_0000_0081u64 & 0x0000_0000_0000_0010u64 == 0,
        0x0000_0000_0000_0081u64 & 0x0000_0000_0000_0008u64 == 0,
        0x0000_0000_0000_0081u64 & 0x00FF_0000_0000_0000u64 == 0,
        0x0000_0000_0000_0081u64 & 0x4200_0000_0000_0000u64 == 0,
        0x0000_0000_0000_0081u64 & 0x2400_0000_0000_0000u64 == 0,
        0x0000_0000_0000_0081u64 & 0x8100_0000_0000_0000u64 == 0,
        0x0000_0000_0000_0081u64 & 0x1000_0000_0000_0000u64 == 0,
        0x0000_0000_0000_0081u64 & 0x0800_0000_0000_0000u64 == 0,
        0x0000_0000_0000_0010u64 & 0x0000_0000_0000_FF00u64 == 0,
        0x0000_0000_0000_0010u64 & 0x0000_0000_0000_0042u64 == 0,
        0x0000_0000_0000_0010u64 & 0x0000_0000_0000_0024u64 == 0,
        0x0000_0000_0000_0010u64 & 0x0000_0000_0000_0081u64 == 0,
        0x0000_0000_0000_0010u64 & 0x0000_0000_0000_0008u64 == 0,
        0x0000_0000_0000_0010u64 & 0x00FF_0000_0000_0000u64 == 0,
        0x0000_0000_0000_0010u64 & 0x4200_0000_0000_0000u64 == 0,
        0x0000_0000_0000_0010u64 & 0x2400_0000_0000_0000u64 == 0,
        0x0000_0000_0000_0010u64 & 0x8100_0000_0000_0000u64 == 0,
        0x0000_0000_0000_0010u64 & 0x1000_0000_0000_0000u64 == 0,
        0x0000_0000_0000_0010u64 & 0x0800_0000_0000_0000u64 == 0,
        0x0000_0000_0000_0008u64 & 0x0000_0000_0000_FF00u64 == 0,
        0x0000_0000_0000_0008u64 & 0x0000_0000_0000_0042u64 == 0,
        0x0000_0000_0000_0008u64 & 0x0000_0000_0000_0024u64 == 0,
        0x0000_0000_0000_0008u64 & 0x0000_0000_0000_0081u64 == 0,
        0x0000_0000_0000_0008u64 & 0x0000_0000_0000_0010u64 == 0,
        0x0000_0000_0000_0008u64 & 0x00FF_0000_0000_0000u64 == 0,
        0x0000_0000_0000_0008u64 & 0x4200_0000_0000_0000u64 == 0,
        0x0000_0000_0000_0008u64 & 0x2400_0000_0000_0000u64 == 0,
        0x0000_0000_0000_0008u64 & 0x8100_0000_0000_0000u64 == 0,
        0x0000_0000_0000_0008u64 & 0x1000_0000_0000_0000u64 == 0,
        0x0000_0000_0000_0008u64 & 0x0800_0000_0000_0000u64 == 0,
        0x00FF_0000_0000_0000u64 & 0x0000_0000_0000_FF00u64 == 0,
        0x00FF_0000_0000_0000u64 & 0x0000_0000_0000_0042u64 == 0,
        0x00FF_0000_0000_0000u64 & 0x0000_0000_0000_0024u64 == 0,
        0x00FF_0000_0000_0000u64 & 0x0000_0000_0000_0081u64 == 0,
        0x00FF_0000_0000_0000u64 & 0x0000_0000_0000_0010u64 == 0,
        0x00FF_0000_0000_0000u64 & 0x0000_0000_0000_0008u64 == 0,
        0x00FF_0000_0000_0000u64 & 0x4200_0000_0000_0000u64 == 0,
        0x00FF_0000_0000_0000u64 & 0x2400_0000_0000_0000u64 == 0,
        0x00FF_0000_0000_0000u64 & 0x8100_0000_0000_0000u64 == 0,
        0x00FF_0000_0000_0000u64 & 0x1000_0000_0000_0000u64 == 0,
        0x00FF_0000_0000_0000u64 & 0x0800_0000_0000_0000u64 == 0,
        0x4200_0000_0000_0000u64 & 0x0000_0000_0000_FF00u64 == 0,
        0x4200_0000_0000_0000u64 & 0x0000_0000_0000_0042u64 == 0,
        0x4200_0000_0000_0000u64 & 0x0000_0000_0000_0024u64 == 0,
        0x4200_0000_0000_0000u64 & 0x0000_0000_0000_0081u64 == 0,
        0x4200_0000_0000_0000u64 & 0x0000_0000_0000_0010u64 == 0,
        0x4200_0000_0000_0000u64 & 0x0000_0000_0000_0008u64 == 0,
        0x4200_0000_0000_0000u64 & 0x00FF_0000_0000_0000u64 == 0,
        0x4200_0000_0000_0000u64 & 0x2400_0000_0000_0000u64 == 0,
        0x4200_0000_0000_0000u64 & 0x8100_0000_0000_0000u64 == 0,
        0x4200_0000_0000_0000u64 & 0x1000_0000_0000_0000u64 == 0,
        0x4200_0000_0000_0000u64 & 0x0800_0000_0000_0000u64 == 0,
        0x2400_0000_0000_0000u64 & 0x0000_0000_0000_FF00u64 == 0,
        0x2400_0000_0000_0000u64 & 0x0000_0000_0000_0042u64 == 0,
        0x2400_0000_0000_0000u64 & 0x0000_0000_0000_0024u64 == 0,
        0x2400_0000_0000_0000u64 & 0x0000_0000_0000_0081u64 == 0,
        0x2400_0000_0000_0000u64 & 0x0000_0000_0000_0010u64 == 0,
        0x2400_0000_0000_0000u64 & 0x0000_0000_0000_0008u64 == 0,
        0x2400_0000_0000_0000u64 & 0x00FF_0000_0000_0000u64 == 0,
        0x2400_0000_0000_0000u64 & 0x4200_0000_0000_0000u64 == 0,
        0x2400_0000_0000_0000u64 & 0x8100_0000_0000_0000u64 == 0,
        0x2400_0000_0000_0000u64 & 0x1000_0000_0000_0000u64 == 0,
        0x2400_0000_0000_0000u64 & 0x0800_0000_0000_0000u64 == 0,
        0x8100_0000_0000_0000u64 & 0x0000_0000_0000_FF00u64 == 0,
        0x8100_0000_0000_0000u64 & 0x0000_0000_0000_0042u64 == 0,
        0x8100_0000_0000_0000u64 & 0x0000_0000_0000_0024u64 == 0,
        0x8100_0000_0000_0000u64 & 0x0000_0000_0000_0081u64 == 0,
        0x8100_0000_0000_0000u64 & 0x0000_0000_0000_0010u64 == 0,
        0x8100_0000_0000_0000u64 & 0x0000_0000_0000_0008u64 == 0,
        0x8100_0000_0000_0000u64 & 0x00FF_0000_0000_0000u64 == 0,
        0x8100_0000_0000_0000u64 & 0x4200_0000_0000_0000u64 == 0,
        0x8100_0000_0000_0000u64 & 0x2400_0000_0000_0000u64 == 0,
        0x8100_0000_0000_0000u64 & 0x1000_0000_0000_0000u64 == 0,
        0x8100_0000_0000_0000u64 & 0x0800_0000_0000_0000u64 == 0,
        0x1000_0000_0000_0000u64 & 0x0000_0000_0000_FF00u64 == 0,
        0x1000_0000_0000_0000u64 & 0x0000_0000_0000_0042u64 == 0,
        0x1000_0000_0000_0000u64 & 0x0000_0000_0000_0024u64 == 0,
        0x1000_0000_0000_0000u64 & 0x0000_0000_0000_0081u64 == 0,
        0x1000_0000_0000_0000u64 & 0x0000_0000_0000_0010u64 == 0,
        0x1000_0000_0000_0000u64 & 0x0000_0000_0000_0008u64 == 0,
        0x1000_0000_0000_0000u64 & 0x00FF_0000_0000_0000u64 == 0,
        0x1000_0000_0000_0000u64 & 0x4200_0000_0000_0000u64 == 0,
        0x1000_0000_0000_0000u64 & 0x2400_0000_0000_0000u64 == 0,
        0x1000_0000_0000_0000u64 & 0x8100_0000_0000_0000u64 == 0,
        0x1000_0000_0000_0000u64 & 0x0800_0000_0000_0000u64 == 0,
        0x0800_0000_0000_0000u64 & 0x0000_0000_0000_FF00u64 == 0,
        0x0800_0000_0000_0000u64 & 0x0000_0000_0000_0042u64 == 0,
        0x0800_0000_0000_0000u64 & 0x0000_0000_0000_0024u64 == 0,
        0x0800_0000_0000_0000u64 & 0x0000_0000_0000_0081u64 == 0,
        0x0800_0000_0000_0000u64 & 0x0000_0000_0000_0010u64 == 0,
        0x0800_0000_0000_0000u64 & 0x0000_0000_0000_0008u64 == 0,
        0x0800_0000_0000_0000u64 & 0x00FF_0000_0000_0000u64 == 0,
        0x0800_0000_0000_0000u64 & 0x4200_0000_0000_0000u64 == 0,
        0x0800_0000_0000_0000u64 & 0x2400_0000_0000_0000u64 == 0,
        0x0800_0000_0000_0000u64 & 0x8100_0000_0000_0000u64 == 0,
        0x0800_0000_0000_0000u64 & 0x1000_0000_0000_0000u64 == 0,
{
}

/// Pairwise-disjoint boards give the square-level uniqueness form of
/// well-formedness.
proof fn lemma_wf_boards_from_pairwise(p: Position)
    requires
        forall|pc1: Piece, pc2: Piece|
            pc1 != pc2 ==> #[trigger] (spec_board(p, pc1) & spec_board(p, pc2)) == 0,
    ensures
        wf_boards(p),
{
    assert forall|pc1: Piece, pc2: Piece, s: Square|
        s < 64 && #[trigger] bb_has(spec_board(p, pc1), s) && #[trigger] bb_has(
            spec_board(p, pc2),
            s,
        ) implies pc1 == pc2 by {
        if pc1 != pc2 {
            crate::bitboard::lemma_squares_of_disjoint(spec_board(p, pc1), spec_board(p, pc2));
        }
    }
}

/// The starting position is well formed: disjoint boards, both kings on
/// their squares, no en-passant target.
pub proof fn lemma_starting_wf()
    ensures
        wf(spec_starting()),
{
    let p = spec_starting();
    lemma_starting_disjoint();
    assert forall|pc1: Piece, pc2: Piece|
        pc1 != pc2 implies #[trigger] (spec_board(p, pc1) & spec_board(p, pc2)) == 0 by {
    }
    lemma_wf_boards_from_pairwise(p);
}

/// The two sides are distinct.
proof fn lemma_opposite_ne(c: Color)
    ensures
        c.spec_opposite() != c,
{
    match c {
        Color::White => {},
        Color::Black => {},
    }
}

/// No board holds an unoccupied square.
proof fn lemma_unoccupied_all(p: Position, s: Square)
    requires
        s < 64,
        !occupied(p, s),
    ensures
        forall|pc: Piece| !bb_has(#[trigger] spec_board(p, pc), s),
{
    assert forall|pc: Piece| !bb_has(#[trigger] spec_board(p, pc), s) by {
    }
}

/// Membership after one board xor, for any piece and square.
proof fn lemma_member_one(p: Position, pca: Piece, ma: u64, pc: Piece, s: Square)
    requires
        s < 64,
    ensures
        bb_has(spec_board(spec_xor_board(p, pca, ma), pc), s) == (bb_has(spec_board(p, pc), s) != (
        pc == pca && bb_has(ma, s))),
{
    lemma_board_update(p, pca, ma, pc);
    lemma_bb_xor(spec_board(p, pc), ma, s);
}

/// Membership after two board xors on distinct pieces, for any piece and
/// square.
proof fn lemma_member_two(
    p: Position,
    pca: Piece,
    ma: u64,
    pcb: Piece,
    mb: u64,
    pc: Piece,
    s: Square,
)
    requires
        s < 64,
        pca != pcb,
    ensures
        bb_has(spec_board(spec_xor_board(spec_xor_board(p, pca, ma), pcb, mb), pc), s) == (bb_has(
            spec_board(p, pc),
            s,
        ) != ((pc == pca && bb_has(ma, s)) || (pc == pcb && bb_has(mb, s)))),
{
    lemma_member_one(p, pca, ma, pc, s);
    lemma_member_one(spec_xor_board(p, pca, ma), pcb, mb, pc, s);
    lemma_board_update(p, pca, ma, pc);
}

/// Membership after three board xors on pairwise distinct pieces.
proof fn lemma_member_three(
    p: Position,
    pca: Piece,
    ma: u64,
    pcb: Piece,
    mb: u64,
    pcc: Piece,
    mc: u64,
    pc: Piece,
    s: Square,
)
    requires
        s < 64,
        pca != pcb,
        pca != pcc,
        pcb != pcc,
    ensures
        bb_has(
            spec_board(
                spec_xor_board(spec_xor_board(spec_xor_board(p, pca, ma), pcb, mb), pcc, mc),
                pc,
            ),
            s,
        ) == (bb_has(spec_board(p, pc), s) != ((pc == pca && bb_has(ma, s)) || (pc == pcb && bb_has(
            mb,
            s,
        )) || (pc == pcc && bb_has(mc, s)))),
{
    lemma_member_two(p, pca, ma, pcb, mb, pc, s);
    lemma_member_one(spec_xor_board(spec_xor_board(p, pca, ma), pcb, mb), pcc, mc, pc, s);
}

/// A board with a member is not empty.
proof fn lemma_member_nonzero(b: u64, s: Square)
    requires
        s < 64,
        bb_has(b, s),
    ensures
        b != 0,
{
    lemma_bb_empty(s);
}


/// Applying an applicable move to a well-formed position yields a
/// well-formed position: the boards stay pairwise disjoint, both kings
/// stay on the board, and a new en-passant target is a real square.
pub proof fn lemma_make_preserves_wf(p: Position, m: Move)
    requires
        wf(p),
        applicable(p, m),
    ensures
        wf(spec_make(p, m)),
{
    match m.flag {
        MoveFlag::Quiet => lemma_wf_plain(p, m),
        MoveFlag::PawnDoubleMove(_) => lemma_wf_plain(p, m),
        MoveFlag::Capture(_) => lemma_wf_capture(p, m),
        MoveFlag::Promotion(_) => lemma_wf_promotion(p, m),
        MoveFlag::CapturePromotion(_, _) => lemma_wf_capture_promotion(p, m),
        MoveFlag::EnPassantCapture(_) => lemma_wf_en_passant(p, m),
        MoveFlag::KingCastle => lemma_wf_castle(p, m),
        MoveFlag::QueenCastle => lemma_wf_castle(p, m),
    }
}

#[verifier::spinoff_prover]
#[verifier::rlimit(100)]
proof fn lemma_wf_plain(p: Position, m: Move)
    requires
        wf(p),
        applicable(p, m),
        m.flag matches MoveFlag::Quiet || m.flag matches MoveFlag::PawnDoubleMove(_),
    ensures
        wf(spec_make(p, m)),
{
    let q = spec_make(p, m);
    let mask = sq_bit(m.from) | sq_bit(m.to);
    let a1 = spec_xor_board(p, m.piece, mask);
    lemma_unoccupied_all(p, m.to);

    assert forall|pc: Piece, s: Square| s < 64 implies (#[trigger] bb_has(spec_board(q, pc), s)
        == (bb_has(spec_board(p, pc), s) != (pc == m.piece && (s == m.from || s == m.to)))) by {
        lemma_board_congr(q, a1, pc);
        lemma_member_one(p, m.piece, mask, pc, s);
        lemma_bb_or(sq_bit(m.from), sq_bit(m.to), s);
        lemma_sq_bit(m.from, s);
        lemma_sq_bit(m.to, s);
    }
    assert forall|pc1: Piece, pc2: Piece, s: Square|
        s < 64 && #[trigger] bb_has(spec_board(q, pc1), s) && #[trigger] bb_has(
            spec_board(q, pc2),
            s,
        ) implies pc1 == pc2 by {
    }
    assert(wf_boards(q));
    lemma_kings_one_mover(p, q, m.piece, m.to);
}

#[verifier::spinoff_prover]
#[verifier::rlimit(100)]
proof fn lemma_wf_capture(p: Position, m: Move)
    requires
        wf(p),
        applicable(p, m),
        m.flag matches MoveFlag::Capture(_),
    ensures
        wf(spec_make(p, m)),
{
    let q = spec_make(p, m);
    let cp = m.flag->Capture_0;
    let mask = sq_bit(m.from) | sq_bit(m.to);
    let a1 = spec_xor_board(p, m.piece, mask);
    let a2 = spec_xor_board(a1, cp, sq_bit(m.to));
    lemma_opposite_ne(p.side_to_move);
    assert forall|pc: Piece, s: Square| s < 64 implies (#[trigger] bb_has(spec_board(q, pc), s)
        == (bb_has(spec_board(p, pc), s) != ((pc == m.piece && (s == m.from || s == m.to)) || (pc == cp && s == m.to)))) by {
        lemma_board_congr(q, a2, pc);
        lemma_member_two(p, m.piece, mask, cp, sq_bit(m.to), pc, s);
        lemma_bb_or(sq_bit(m.from), sq_bit(m.to), s);
        lemma_sq_bit(m.from, s);
        lemma_sq_bit(m.to, s);
    }
    assert forall|pc1: Piece, pc2: Piece, s: Square|
        s < 64 && #[trigger] bb_has(spec_board(q, pc1), s) && #[trigger] bb_has(
            spec_board(q, pc2),
            s,
        ) implies pc1 == pc2 by {
    }
    assert(wf_boards(q));
    lemma_kings_one_mover(p, q, m.piece, m.to);
}

#[verifier::spinoff_prover]
#[verifier::rlimit(100)]
proof fn lemma_wf_promotion(p: Position, m: Move)
    requires
        wf(p),
        applicable(p, m),
        m.flag matches MoveFlag::Promotion(_),
    ensures
        wf(spec_make(p, m)),
{
    let q = spec_make(p, m);
    let np = m.flag->Promotion_0;
    let a1 = spec_xor_board(p, m.piece, sq_bit(m.from));
    let a2 = spec_xor_board(a1, np, sq_bit(m.to));
    lemma_unoccupied_all(p, m.to);

    assert forall|pc: Piece, s: Square| s < 64 implies (#[trigger] bb_has(spec_board(q, pc), s)
        == (bb_has(spec_board(p, pc), s) != ((pc == m.piece && s == m.from) || (pc == np && s == m.to)))) by {
        lemma_board_congr(q, a2, pc);
        lemma_member_two(p, m.piece, sq_bit(m.from), np, sq_bit(m.to), pc, s);
        lemma_sq_bit(m.from, s);
        lemma_sq_bit(m.to, s);
    }
    assert forall|pc1: Piece, pc2: Piece, s: Square|
        s < 64 && #[trigger] bb_has(spec_board(q, pc1), s) && #[trigger] bb_has(
            spec_board(q, pc2),
            s,
        ) implies pc1 == pc2 by {
    }
    assert(wf_boards(q));
    lemma_kings_untouched(p, q);
}

#[verifier::spinoff_prover]
#[verifier::rlimit(100)]
proof fn lemma_wf_capture_promotion(p: Position, m: Move)
    requires
        wf(p),
        applicable(p, m),
        m.flag matches MoveFlag::CapturePromotion(_, _),
    ensures
        wf(spec_make(p, m)),
{
    let q = spec_make(p, m);
    let cp = m.flag->CapturePromotion_0;
    let np = m.flag->CapturePromotion_1;
    let a1 = spec_xor_board(p, m.piece, sq_bit(m.from));
    let a2 = spec_xor_board(a1, np, sq_bit(m.to));
    let a3 = spec_xor_board(a2, cp, sq_bit(m.to));
    lemma_opposite_ne(p.side_to_move);
    assert forall|pc: Piece, s: Square| s < 64 implies (#[trigger] bb_has(spec_board(q, pc), s)
        == (bb_has(spec_board(p, pc), s) != ((pc == m.piece && s == m.from) || (pc == np && s == m.to) || (pc == cp && s == m.to)))) by {
        lemma_board_congr(q, a3, pc);
        lemma_member_three(p, m.piece, sq_bit(m.from), np, sq_bit(m.to), cp, sq_bit(m.to), pc, s);
        lemma_sq_bit(m.from, s);
        lemma_sq_bit(m.to, s);
    }
    assert forall|pc1: Piece, pc2: Piece, s: Square|
        s < 64 && #[trigger] bb_has(spec_board(q, pc1), s) && #[trigger] bb_has(
            spec_board(q, pc2),
            s,
        ) implies pc1 == pc2 by {
    }
    assert(wf_boards(q));
    lemma_kings_untouched(p, q);
}

#[verifier::spinoff_prover]
#[verifier::rlimit(100)]
proof fn lemma_wf_en_passant(p: Position, m: Move)
    requires
        wf(p),
        applicable(p, m),
        m.flag matches MoveFlag::EnPassantCapture(_),
    ensures
        wf(spec_make(p, m)),
{
    let q = spec_make(p, m);
    let cs = m.flag->EnPassantCapture_0;
    let epp = Piece { color: p.side_to_move.spec_opposite(), kind: PieceKind::Pawn };
    let mask = sq_bit(m.from) | sq_bit(m.to);
    let a1 = spec_xor_board(p, m.piece, mask);
    let a2 = spec_xor_board(a1, epp, sq_bit(cs));
    lemma_unoccupied_all(p, m.to);
    lemma_opposite_ne(p.side_to_move);
    assert forall|pc: Piece, s: Square| s < 64 implies (#[trigger] bb_has(spec_board(q, pc), s)
        == (bb_has(spec_board(p, pc), s) != ((pc == m.piece && (s == m.from || s == m.to)) || (pc == epp && s == cs)))) by {
        lemma_board_congr(q, a2, pc);
        lemma_member_two(p, m.piece, mask, epp, sq_bit(cs), pc, s);
        lemma_bb_or(sq_bit(m.from), sq_bit(m.to), s);
        lemma_sq_bit(m.from, s);
        lemma_sq_bit(m.to, s);
        lemma_sq_bit(cs, s);
    }
    assert forall|pc1: Piece, pc2: Piece, s: Square|
        s < 64 && #[trigger] bb_has(spec_board(q, pc1), s) && #[trigger] bb_has(
            spec_board(q, pc2),
            s,
        ) implies pc1 == pc2 by {
    }
    assert(wf_boards(q));
    lemma_kings_untouched(p, q);
}

#[verifier::spinoff_prover]
#[verifier::rlimit(100)]
proof fn lemma_wf_castle(p: Position, m: Move)
    requires
        wf(p),
        applicable(p, m),
        m.flag matches MoveFlag::KingCastle || m.flag matches MoveFlag::QueenCastle,
    ensures
        wf(spec_make(p, m)),
{
    let q = spec_make(p, m);
    let c = m.piece.color;
    let rook = Piece { color: c, kind: PieceKind::Rook };
    let rf = match m.flag {
        MoveFlag::KingCastle => kc_rook_from(c),
        _ => qc_rook_from(c),
    };
    let rt = match m.flag {
        MoveFlag::KingCastle => kc_rook_to(c),
        _ => qc_rook_to(c),
    };
    let mask = sq_bit(m.from) | sq_bit(m.to);
    let rmask = sq_bit(rf) | sq_bit(rt);
    let a1 = spec_xor_board(p, m.piece, mask);
    let a2 = spec_xor_board(a1, rook, rmask);
    lemma_unoccupied_all(p, m.to);
    lemma_unoccupied_all(p, rt);
    match c {
        Color::White => {},
        Color::Black => {},
    }

    assert forall|pc: Piece, s: Square| s < 64 implies (#[trigger] bb_has(spec_board(q, pc), s)
        == (bb_has(spec_board(p, pc), s) != ((pc == m.piece && (s == m.from || s == m.to)) || (pc == rook && (s == rf || s == rt))))) by {
        lemma_board_congr(q, a2, pc);
        lemma_member_two(p, m.piece, mask, rook, rmask, pc, s);
        lemma_bb_or(sq_bit(m.from), sq_bit(m.to), s);
        lemma_bb_or(sq_bit(rf), sq_bit(rt), s);
        lemma_sq_bit(m.from, s);
        lemma_sq_bit(m.to, s);
        lemma_sq_bit(rf, s);
        lemma_sq_bit(rt, s);
    }
    assert forall|pc1: Piece, pc2: Piece, s: Square|
        s < 64 && #[trigger] bb_has(spec_board(q, pc1), s) && #[trigger] bb_has(
            spec_board(q, pc2),
            s,
        ) implies pc1 == pc2 by {
    }
    assert(wf_boards(q));
    lemma_kings_one_mover(p, q, m.piece, m.to);
}

/// Both kings are still on the board when the mover, possibly a king
/// itself, has landed on its target and no other king board changed.
proof fn lemma_kings_one_mover(p: Position, q: Position, mover: Piece, to: Square)
    requires
        to < 64,
        kings_present(p),
        bb_has(spec_board(q, mover), to),
        forall|pc: Piece, s: Square|
            s < 64 && pc != mover && pc.kind == PieceKind::King ==> (#[trigger] bb_has(
                spec_board(q, pc),
                s,
            ) == bb_has(spec_board(p, pc), s)),
    ensures
        kings_present(q),
{
    let wk = Piece { color: Color::White, kind: PieceKind::King };
    let bk = Piece { color: Color::Black, kind: PieceKind::King };
    if mover == wk {
        lemma_member_nonzero(spec_board(q, wk), to);
    } else {
        lemma_untouched_king(p, q, wk);
    }
    if mover == bk {
        lemma_member_nonzero(spec_board(q, bk), to);
    } else {
        lemma_untouched_king(p, q, bk);
    }
}

/// Both kings are still on the board when no king board changed.
proof fn lemma_kings_untouched(p: Position, q: Position)
    requires
        kings_present(p),
        forall|pc: Piece, s: Square|
            s < 64 && pc.kind == PieceKind::King ==> (#[trigger] bb_has(spec_board(q, pc), s)
                == bb_has(spec_board(p, pc), s)),
    ensures
        kings_present(q),
{
    let wk = Piece { color: Color::White, kind: PieceKind::King };
    let bk = Piece { color: Color::Black, kind: PieceKind::King };
    lemma_untouched_king(p, q, wk);
    lemma_untouched_king(p, q, bk);
}

/// A king whose board the move left alone keeps its square.
proof fn lemma_untouched_king(p: Position, q: Position, k: Piece)
    requires
        k.kind == PieceKind::King,
        spec_board(p, k) != 0,
        forall|s: Square| s < 64 ==> (#[trigger] bb_has(spec_board(q, k), s) == bb_has(
            spec_board(p, k),
            s,
        )),
    ensures
        spec_board(q, k) != 0,
{
    let s0 = crate::bitboard::spec_first_square(spec_board(p, k));
    crate::bitboard::lemma_first_square(spec_board(p, k));
    lemma_member_nonzero(spec_board(q, k), s0);
}

} // verus!

//! Legal move generation: precomputed-style leaper attacks, ray-cast
//! sliding attacks, pawn and castle special cases, and the king-safety
//! filter.

pub mod moves;

use vstd::prelude::*;
use crate::bitboard::{bb_has, group_bb_algebra, sq_bit, spec_first_square, Bitboard, Square, MSB_BIT};
use crate::move_generator::moves::{Color, Move, MoveFlag, Piece, PieceKind};
use crate::position::{
    applicable, occupied, spec_board, spec_color_occ, spec_make, spec_occ, spec_piece_at, Position,
};
use crate::utility::FileBoundMask;

verus! {

broadcast use group_bb_algebra;

/// A shift direction on the board.
#[derive(Clone, Copy, PartialEq, Eq, Structural, Debug)]
pub enum Dir {
    North,
    South,
    East,
    West,
    NorthEast,
    NorthWest,
    SouthEast,
    SouthWest,
}

/// One step of a whole board in a direction, with the file masks keeping
/// moves from wrapping across the board edge.
pub open spec fn spec_shift(d: Dir, b: u64) -> u64 {
    match d {
        Dir::North => b << 8,
        Dir::South => b >> 8,
        Dir::East => (b & FileBoundMask::H) >> 1,
        Dir::West => (b & FileBoundMask::A) << 1,
        Dir::NorthEast => (b & FileBoundMask::H) << 7,
        Dir::NorthWest => (b & FileBoundMask::A) << 9,
        Dir::SouthEast => (b & FileBoundMask::H) >> 9,
        Dir::SouthWest => (b & FileBoundMask::A) >> 7,
    }
}

/// One step of a whole board in a direction.
#[verifier::when_used_as_spec(spec_shift)]
pub fn shift(d: Dir, b: u64) -> (r: u64)
    ensures
        r == spec_shift(d, b),
{
    match d {
        Dir::North => b << 8u64,
        Dir::South => b >> 8u64,
        Dir::East => (b & FileBoundMask::H) >> 1u64,
        Dir::West => (b & FileBoundMask::A) << 1u64,
        Dir::NorthEast => (b & FileBoundMask::H) << 7u64,
        Dir::NorthWest => (b & FileBoundMask::A) << 9u64,
        Dir::SouthEast => (b & FileBoundMask::H) >> 9u64,
        Dir::SouthWest => (b & FileBoundMask::A) >> 7u64,
    }
}

/// The squares a knight on the given single-square board leaps to.
pub open spec fn spec_knight_attacks(b: u64) -> u64 {
    ((b & FileBoundMask::H) << 15) | ((b & FileBoundMask::A) << 17) | ((b & FileBoundMask::G
        & FileBoundMask::H) << 6) | ((b & FileBoundMask::A & FileBoundMask::B) << 10) | ((b
        & FileBoundMask::H) >> 17) | ((b & FileBoundMask::A) >> 15) | ((b & FileBoundMask::G
        & FileBoundMask::H) >> 10) | ((b & FileBoundMask::A & FileBoundMask::B) >> 6)
}

/// The squares a knight on the given single-square board leaps to.
#[verifier::when_used_as_spec(spec_knight_attacks)]
pub fn knight_attacks(b: u64) -> (r: u64)
    ensures
        r == spec_knight_attacks(b),
{
    ((b & FileBoundMask::H) << 15u64) | ((b & FileBoundMask::A) << 17u64) | ((b & FileBoundMask::G
        & FileBoundMask::H) << 6u64) | ((b & FileBoundMask::A & FileBoundMask::B) << 10u64) | ((b
        & FileBoundMask::H) >> 17u64) | ((b & FileBoundMask::A) >> 15u64) | ((b & FileBoundMask::G
        & FileBoundMask::H) >> 10u64) | ((b & FileBoundMask::A & FileBoundMask::B) >> 6u64)
}

/// The squares next to the king on the given single-square board.
pub open spec fn spec_king_attacks(b: u64) -> u64 {
    spec_shift(Dir::North, b) | spec_shift(Dir::South, b) | spec_shift(Dir::East, b) | spec_shift(
        Dir::West,
        b,
    ) | spec_shift(Dir::NorthEast, b) | spec_shift(Dir::NorthWest, b) | spec_shift(
        Dir::SouthEast,
        b,
    ) | spec_shift(Dir::SouthWest, b)
}

/// The squares next to the king on the given single-square board.
#[verifier::when_used_as_spec(spec_king_attacks)]
pub fn king_attacks(b: u64) -> (r: u64)
    ensures
        r == spec_king_attacks(b),
{
    shift(Dir::North, b) | shift(Dir::South, b) | shift(Dir::East, b) | shift(Dir::West, b) | shift(
        Dir::NorthEast,
        b,
    ) | shift(Dir::NorthWest, b) | shift(Dir::SouthEast, b) | shift(Dir::SouthWest, b)
}

/// The squares a pawn of the given side attacks from the given
/// single-square board; pawns capture diagonally forward only.
pub open spec fn spec_pawn_attacks(c: Color, b: u64) -> u64 {
    match c {
        Color::White => spec_shift(Dir::NorthEast, b) | spec_shift(Dir::NorthWest, b),
        Color::Black => spec_shift(Dir::SouthEast, b) | spec_shift(Dir::SouthWest, b),
    }
}

/// The squares a pawn of the given side attacks.
#[verifier::when_used_as_spec(spec_pawn_attacks)]
pub fn pawn_attacks(c: Color, b: u64) -> (r: u64)
    ensures
        r == spec_pawn_attacks(c, b),
{
    match c {
        Color::White => shift(Dir::NorthEast, b) | shift(Dir::NorthWest, b),
        Color::Black => shift(Dir::SouthEast, b) | shift(Dir::SouthWest, b),
    }
}

/// The squares reached by extending from `b` in one direction until the
/// first occupied square, inclusive; the extension runs out of fuel after
/// the seven steps a board can hold.
pub open spec fn spec_ray(d: Dir, b: u64, occ: u64, fuel: nat) -> u64
    decreases fuel,
{
    if fuel == 0 {
        0
    } else {
        let nb = spec_shift(d, b);
        if nb == 0 {
            0
        } else if nb & occ != 0 {
            nb
        } else {
            nb | spec_ray(d, nb, occ, (fuel - 1) as nat)
        }
    }
}

/// Ray attacks in one direction, stopping at the first occupied square.
pub fn ray(d: Dir, b: u64, occ: u64, fuel: u8) -> (r: u64)
    ensures
        r == spec_ray(d, b, occ, fuel as nat),
    decreases fuel,
{
    if fuel == 0 {
        0
    } else {
        let nb = shift(d, b);
        if nb == 0 {
            0
        } else if nb & occ != 0 {
            nb
        } else {
            nb | ray(d, nb, occ, fuel - 1)
        }
    }
}

/// The diagonal ray attacks of a bishop on the given single-square board.
pub open spec fn spec_bishop_attacks(b: u64, occ: u64) -> u64 {
    spec_ray(Dir::NorthEast, b, occ, 7) | spec_ray(Dir::NorthWest, b, occ, 7) | spec_ray(
        Dir::SouthEast,
        b,
        occ,
        7,
    ) | spec_ray(Dir::SouthWest, b, occ, 7)
}

/// The diagonal ray attacks of a bishop.
#[verifier::when_used_as_spec(spec_bishop_attacks)]
pub fn bishop_attacks(b: u64, occ: u64) -> (r: u64)
    ensures
        r == spec_bishop_attacks(b, occ),
{
    ray(Dir::NorthEast, b, occ, 7) | ray(Dir::NorthWest, b, occ, 7) | ray(Dir::SouthEast, b, occ, 7)
        | ray(Dir::SouthWest, b, occ, 7)
}

/// The straight ray attacks of a rook on the given single-square board.
pub open spec fn spec_rook_attacks(b: u64, occ: u64) -> u64 {
    spec_ray(Dir::North, b, occ, 7) | spec_ray(Dir::South, b, occ, 7) | spec_ray(
        Dir::East,
        b,
        occ,
        7,
    ) | spec_ray(Dir::West, b, occ, 7)
}

/// The straight ray attacks of a rook.
#[verifier::when_used_as_spec(spec_rook_attacks)]
pub fn rook_attacks(b: u64, occ: u64) -> (r: u64)
    ensures
        r == spec_rook_attacks(b, occ),
{
    ray(Dir::North, b, occ, 7) | ray(Dir::South, b, occ, 7) | ray(Dir::East, b, occ, 7) | ray(
        Dir::West,
        b,
        occ,
        7,
    )
}

/// One step in a direction, said over rank and file coordinates: rank 0
/// is the a8 rank and file 0 the a-file, so north lowers the rank index.
pub open spec fn spec_step(d: Dir, s: Square, t: Square) -> bool {
    let sr = s as int / 8;
    let sf = s as int % 8;
    let tr = t as int / 8;
    let tf = t as int % 8;
    match d {
        Dir::North => tr + 1 == sr && tf == sf,
        Dir::South => sr + 1 == tr && tf == sf,
        Dir::East => tr == sr && tf == sf + 1,
        Dir::West => tr == sr && tf + 1 == sf,
        Dir::NorthEast => tr + 1 == sr && tf == sf + 1,
        Dir::NorthWest => tr + 1 == sr && tf + 1 == sf,
        Dir::SouthEast => sr + 1 == tr && tf == sf + 1,
        Dir::SouthWest => sr + 1 == tr && tf + 1 == sf,
    }
}

/// The shift of a single-square board reaches exactly the neighbouring
/// square in that direction, and nothing across a board edge: this holds
/// the file-bound masks to the board geometry.
pub proof fn lemma_shift_geometry(d: Dir, s: Square, t: Square)
    requires
        s < 64,
        t < 64,
    ensures
        bb_has(spec_shift(d, sq_bit(s)), t) <==> spec_step(d, s, t),
{
    match d {
        Dir::North => {
            assert((((0x8000_0000_0000_0000u64 >> (s as u64)) << 8) & (0x8000_0000_0000_0000u64
                >> (t as u64)) != 0) <==> ((t as u64) / 8 + 1 == (s as u64) / 8 && (t as u64) % 8
                == (s as u64) % 8)) by (bit_vector)
                requires
                    s < 64,
                    t < 64,
            ;
        },
        Dir::South => {
            assert((((0x8000_0000_0000_0000u64 >> (s as u64)) >> 8) & (0x8000_0000_0000_0000u64
                >> (t as u64)) != 0) <==> ((s as u64) / 8 + 1 == (t as u64) / 8 && (t as u64) % 8
                == (s as u64) % 8)) by (bit_vector)
                requires
                    s < 64,
                    t < 64,
            ;
        },
        Dir::East => {
            assert(((((0x8000_0000_0000_0000u64 >> (s as u64)) & 0xFEFE_FEFE_FEFE_FEFEu64) >> 1)
                & (0x8000_0000_0000_0000u64 >> (t as u64)) != 0) <==> ((t as u64) / 8 == (
            s as u64) / 8 && (t as u64) % 8 == (s as u64) % 8 + 1)) by (bit_vector)
                requires
                    s < 64,
                    t < 64,
            ;
        },
        Dir::West => {
            assert(((((0x8000_0000_0000_0000u64 >> (s as u64)) & 0x7F7F_7F7F_7F7F_7F7Fu64) << 1)
                & (0x8000_0000_0000_0000u64 >> (t as u64)) != 0) <==> ((t as u64) / 8 == (
            s as u64) / 8 && (t as u64) % 8 + 1 == (s as u64) % 8)) by (bit_vector)
                requires
                    s < 64,
                    t < 64,
            ;
        },
        Dir::NorthEast => {
            assert(((((0x8000_0000_0000_0000u64 >> (s as u64)) & 0xFEFE_FEFE_FEFE_FEFEu64) << 7)
                & (0x8000_0000_0000_0000u64 >> (t as u64)) != 0) <==> ((t as u64) / 8 + 1 == (
            s as u64) / 8 && (t as u64) % 8 == (s as u64) % 8 + 1)) by (bit_vector)
                requires
                    s < 64,
                    t < 64,
            ;
        },
        Dir::NorthWest => {
            assert(((((0x8000_0000_0000_0000u64 >> (s as u64)) & 0x7F7F_7F7F_7F7F_7F7Fu64) << 9)
                & (0x8000_0000_0000_0000u64 >> (t as u64)) != 0) <==> ((t as u64) / 8 + 1 == (
            s as u64) / 8 && (t as u64) % 8 + 1 == (s as u64) % 8)) by (bit_vector)
                requires
                    s < 64,
                    t < 64,
            ;
        },
        Dir::SouthEast => {
            assert(((((0x8000_0000_0000_0000u64 >> (s as u64)) & 0xFEFE_FEFE_FEFE_FEFEu64) >> 9)
                & (0x8000_0000_0000_0000u64 >> (t as u64)) != 0) <==> ((s as u64) / 8 + 1 == (
            t as u64) / 8 && (t as u64) % 8 == (s as u64) % 8 + 1)) by (bit_vector)
                requires
                    s < 64,
                    t < 64,
            ;
        },
        Dir::SouthWest => {
            assert(((((0x8000_0000_0000_0000u64 >> (s as u64)) & 0x7F7F_7F7F_7F7F_7F7Fu64) >> 7)
                & (0x8000_0000_0000_0000u64 >> (t as u64)) != 0) <==> ((s as u64) / 8 + 1 == (
            t as u64) / 8 && (t as u64) % 8 + 1 == (s as u64) % 8)) by (bit_vector)
                requires
                    s < 64,
                    t < 64,
            ;
        },
    }
}

/// A knight's leap, over rank and file coordinates: two ranks and one
/// file, or one rank and two files.
pub open spec fn spec_knight_leap(s: Square, t: Square) -> bool {
    let sr = s as int / 8;
    let sf = s as int % 8;
    let tr = t as int / 8;
    let tf = t as int % 8;
    ||| ((sr + 2 == tr || tr + 2 == sr) && (sf + 1 == tf || tf + 1 == sf))
    ||| ((sr + 1 == tr || tr + 1 == sr) && (sf + 2 == tf || tf + 2 == sf))
}

/// The knight attack board of a square holds exactly the squares a
/// knight's leap away, with no wrap across the board edges.
pub proof fn lemma_knight_attacks_geometry(s: Square, t: Square)
    requires
        s < 64,
        t < 64,
    ensures
        bb_has(spec_knight_attacks(sq_bit(s)), t) <==> spec_knight_leap(s, t),
{
    assert({
        let b = 0x8000_0000_0000_0000u64 >> (s as u64);
        let na = 0x7F7F_7F7F_7F7F_7F7Fu64;
        let nb = 0xBFBF_BFBF_BFBF_BFBFu64;
        let ng = 0xFDFD_FDFD_FDFD_FDFDu64;
        let nh = 0xFEFE_FEFE_FEFE_FEFEu64;
        ((((b & nh) << 15) | ((b & na) << 17) | ((b & ng & nh) << 6) | ((b & na & nb) << 10) | ((b
            & nh) >> 17) | ((b & na) >> 15) | ((b & ng & nh) >> 10) | ((b & na & nb) >> 6)) & (
        0x8000_0000_0000_0000u64 >> (t as u64)) != 0) <==> ((((s as u64) / 8 + 2 == (t as u64) / 8
            || (t as u64) / 8 + 2 == (s as u64) / 8) && ((s as u64) % 8 + 1 == (t as u64) % 8 || (
        t as u64) % 8 + 1 == (s as u64) % 8)) || (((s as u64) / 8 + 1 == (t as u64) / 8 || (
        t as u64) / 8 + 1 == (s as u64) / 8) && ((s as u64) % 8 + 2 == (t as u64) % 8 || (
        t as u64) % 8 + 2 == (s as u64) % 8)))
    }) by (bit_vector)
        requires
            s < 64,
            t < 64,
    ;
}

/// A king's step: at most one rank and one file away, and not standing
/// still.
pub open spec fn spec_king_step(s: Square, t: Square) -> bool {
    let sr = s as int / 8;
    let sf = s as int % 8;
    let tr = t as int / 8;
    let tf = t as int % 8;
    &&& (sr == tr || sr + 1 == tr || tr + 1 == sr)
    &&& (sf == tf || sf + 1 == tf || tf + 1 == sf)
    &&& !(sr == tr && sf == tf)
}

/// The king attack board of a square holds exactly the neighbouring
/// squares.
pub proof fn lemma_king_attacks_geometry(s: Square, t: Square)
    requires
        s < 64,
        t < 64,
    ensures
        bb_has(spec_king_attacks(sq_bit(s)), t) <==> spec_king_step(s, t),
{
    lemma_shift_geometry(Dir::North, s, t);
    lemma_shift_geometry(Dir::South, s, t);
    lemma_shift_geometry(Dir::East, s, t);
    lemma_shift_geometry(Dir::West, s, t);
    lemma_shift_geometry(Dir::NorthEast, s, t);
    lemma_shift_geometry(Dir::NorthWest, s, t);
    lemma_shift_geometry(Dir::SouthEast, s, t);
    lemma_shift_geometry(Dir::SouthWest, s, t);
}

/// The pawn attack board of a square holds exactly the two diagonally
/// forward squares of its side.
pub proof fn lemma_pawn_attacks_geometry(c: Color, s: Square, t: Square)
    requires
        s < 64,
        t < 64,
    ensures
        bb_has(spec_pawn_attacks(c, sq_bit(s)), t) <==> (match c {
            Color::White => spec_step(Dir::NorthEast, s, t) || spec_step(Dir::NorthWest, s, t),
            Color::Black => spec_step(Dir::SouthEast, s, t) || spec_step(Dir::SouthWest, s, t),
        }),
{
    lemma_shift_geometry(Dir::NorthEast, s, t);
    lemma_shift_geometry(Dir::NorthWest, s, t);
    lemma_shift_geometry(Dir::SouthEast, s, t);
    lemma_shift_geometry(Dir::SouthWest, s, t);
}

/// The attack set of one piece standing on the given single-square board,
/// against the given occupancy.
pub open spec fn spec_attacks(kind: PieceKind, c: Color, b: u64, occ: u64) -> u64 {
    match kind {
        PieceKind::Pawn => spec_pawn_attacks(c, b),
        PieceKind::Knight => spec_knight_attacks(b),
        PieceKind::Bishop => spec_bishop_attacks(b, occ),
        PieceKind::Rook => spec_rook_attacks(b, occ),
        PieceKind::Queen => spec_bishop_attacks(b, occ) | spec_rook_attacks(b, occ),
        PieceKind::King => spec_king_attacks(b),
    }
}

/// The attack set of one piece standing on the given single-square board.
#[verifier::when_used_as_spec(spec_attacks)]
pub fn attacks(kind: PieceKind, c: Color, b: u64, occ: u64) -> (r: u64)
    ensures
        r == spec_attacks(kind, c, b, occ),
{
    match kind {
        PieceKind::Pawn => pawn_attacks(c, b),
        PieceKind::Knight => knight_attacks(b),
        PieceKind::Bishop => bishop_attacks(b, occ),
        PieceKind::Rook => rook_attacks(b, occ),
        PieceKind::Queen => bishop_attacks(b, occ) | rook_attacks(b, occ),
        PieceKind::King => king_attacks(b),
    }
}

/// The union of the attacks of every piece of one side standing on the
/// first `n` squares.
pub open spec fn spec_attack_union(p: Position, c: Color, n: nat) -> u64
    decreases n,
{
    if n == 0 {
        0
    } else {
        let s = (n - 1) as Square;
        let rest = spec_attack_union(p, c, (n - 1) as nat);
        match spec_piece_at(p, s) {
            Some(pc) => if pc.color == c {
                spec_attacks(pc.kind, c, sq_bit(s), spec_occ(p)) | rest
            } else {
                rest
            },
            None => rest,
        }
    }
}

/// The combined attack set of one side against the current occupancy.
pub open spec fn spec_attack_set(p: Position, c: Color) -> u64 {
    spec_attack_union(p, c, 64)
}

/// The combined attack set of one side against the current occupancy.
pub fn attack_set(p: &Position, c: Color) -> (r: u64)
    ensures
        r == spec_attack_set(*p, c),
{
    let occ = p.occupancy().0;
    let mut acc: u64 = 0;
    let mut s: u8 = 0;
    while s < 64
        invariant
            s <= 64,
            acc == spec_attack_union(*p, c, s as nat),
            occ == spec_occ(*p),
        decreases 64 - s,
    {
        match p.piece_at(s) {
            Some(pc) => {
                if pc.color == c {
                    let piece_att = attacks(pc.kind, c, MSB_BIT >> s, occ);
                    proof {
                        crate::bitboard::lemma_or_comm(acc, piece_att);
                    }
                    acc = acc | piece_att;
                }
            },
            None => {},
        }
        s = s + 1;
    }
    acc
}

/// Whether one side attacks a square.
pub open spec fn spec_attacked(p: Position, c: Color, s: Square) -> bool {
    bb_has(spec_attack_set(p, c), s)
}

/// Whether the given side's king stands on a square its opponent attacks.
pub open spec fn spec_in_check(p: Position, c: Color) -> bool {
    spec_attack_set(p, c.spec_opposite()) & spec_board(
        p,
        Piece { color: c, kind: PieceKind::King },
    ) != 0
}

/// Whether the given side's king stands on a square its opponent attacks.
pub fn in_check(p: &Position, c: Color) -> (r: bool)
    ensures
        r == spec_in_check(*p, c),
{
    let att = attack_set(p, c.opposite());
    let king = p.board(Piece { color: c, kind: PieceKind::King });
    att & king.0 != 0
}


/// A piece's square is an occupied square.
proof fn lemma_board_subset_occ(p: Position, pc: Piece, s: Square)
    requires
        s < 64,
        bb_has(spec_board(p, pc), s),
    ensures
        occupied(p, s),
{
    match pc.color {
        Color::White => match pc.kind {
            PieceKind::Pawn => {},
            PieceKind::Knight => {},
            PieceKind::Bishop => {},
            PieceKind::Rook => {},
            PieceKind::Queen => {},
            PieceKind::King => {},
        },
        Color::Black => match pc.kind {
            PieceKind::Pawn => {},
            PieceKind::Knight => {},
            PieceKind::Bishop => {},
            PieceKind::Rook => {},
            PieceKind::Queen => {},
            PieceKind::King => {},
        },
    }
}

/// The castle conditions the generator checks before emitting a castle
/// move and the filter cannot check afterwards: the right is still held,
/// and neither the king's start square nor the squares it crosses are
/// attacked.  For every other move this asks nothing.
pub open spec fn castle_ok(p: Position, m: Move) -> bool {
    match m.flag {
        MoveFlag::KingCastle => {
            let c = m.piece.color;
            &&& (c == Color::White ==> p.castle_white_king)
            &&& (c == Color::Black ==> p.castle_black_king)
            &&& !spec_attacked(p, c.spec_opposite(), crate::position::king_start(c))
            &&& !spec_attacked(p, c.spec_opposite(), crate::position::kc_rook_to(c))
            &&& !spec_attacked(p, c.spec_opposite(), crate::position::kc_king_to(c))
        },
        MoveFlag::QueenCastle => {
            let c = m.piece.color;
            &&& (c == Color::White ==> p.castle_white_queen)
            &&& (c == Color::Black ==> p.castle_black_queen)
            &&& !spec_attacked(p, c.spec_opposite(), crate::position::king_start(c))
            &&& !spec_attacked(p, c.spec_opposite(), crate::position::qc_rook_to(c))
            &&& !spec_attacked(p, c.spec_opposite(), crate::position::qc_king_to(c))
        },
        _ => true,
    }
}

/// The move, if any, a non-pawn piece emits for one target square: a
/// quiet move onto an empty square, a capture of an enemy piece that is
/// not a king, and nothing otherwise.
pub open spec fn spec_target_moves(p: Position, s: Square, pc: Piece, t: Square) -> Seq<Move> {
    match spec_piece_at(p, t) {
        Option::None => seq![Move { from: s, to: t, piece: pc, flag: MoveFlag::Quiet }],
        Option::Some(cp) => if t != s && cp.color != pc.color && cp.kind != PieceKind::King {
            seq![Move { from: s, to: t, piece: pc, flag: MoveFlag::Capture(cp) }]
        } else {
            Seq::empty()
        },
    }
}

/// The moves of one non-pawn piece, walking its target squares from a8
/// onwards.
pub open spec fn spec_attack_move_list(p: Position, s: Square, pc: Piece, targets: u64) -> Seq<
    Move,
>
    decreases targets,
    via spec_attack_move_list_decreases
{
    if targets == 0 {
        Seq::empty()
    } else {
        let t = spec_first_square(targets);
        spec_target_moves(p, s, pc, t) + spec_attack_move_list(p, s, pc, targets ^ sq_bit(t))
    }
}

#[via_fn]
proof fn spec_attack_move_list_decreases(p: Position, s: Square, pc: Piece, targets: u64) {
    if targets != 0 {
        crate::bitboard::lemma_first_square(targets);
        crate::bitboard::lemma_xor_clear_shrinks(targets, spec_first_square(targets));
    }
}

/// The four promotion choices, knight to queen, for a pawn stepping or
/// capturing onto the last rank.
pub open spec fn spec_promotions(s: Square, t: Square, c: Color, cp: Option<Piece>) -> Seq<Move> {
    let pc = Piece { color: c, kind: PieceKind::Pawn };
    match cp {
        Option::None => seq![
            Move { from: s, to: t, piece: pc, flag: MoveFlag::Promotion(Piece { color: c, kind: PieceKind::Knight }) },
            Move { from: s, to: t, piece: pc, flag: MoveFlag::Promotion(Piece { color: c, kind: PieceKind::Bishop }) },
            Move { from: s, to: t, piece: pc, flag: MoveFlag::Promotion(Piece { color: c, kind: PieceKind::Rook }) },
            Move { from: s, to: t, piece: pc, flag: MoveFlag::Promotion(Piece { color: c, kind: PieceKind::Queen }) },
        ],
        Option::Some(x) => seq![
            Move { from: s, to: t, piece: pc, flag: MoveFlag::CapturePromotion(x, Piece { color: c, kind: PieceKind::Knight }) },
            Move { from: s, to: t, piece: pc, flag: MoveFlag::CapturePromotion(x, Piece { color: c, kind: PieceKind::Bishop }) },
            Move { from: s, to: t, piece: pc, flag: MoveFlag::CapturePromotion(x, Piece { color: c, kind: PieceKind::Rook }) },
            Move { from: s, to: t, piece: pc, flag: MoveFlag::CapturePromotion(x, Piece { color: c, kind: PieceKind::Queen }) },
        ],
    }
}

/// The last rank for the given side's pawns.
pub open spec fn spec_promo_rank(c: Color, t: Square) -> bool {
    match c {
        Color::White => t < 8,
        Color::Black => t >= 56,
    }
}

/// The rank a pawn double-moves from.
pub open spec fn spec_start_rank(c: Color, s: Square) -> bool {
    match c {
        Color::White => 48 <= s && s < 56,
        Color::Black => 8 <= s && s < 16,
    }
}

/// The push direction of the given side's pawns.
pub open spec fn pawn_dir(c: Color) -> Dir {
    match c {
        Color::White => Dir::North,
        Color::Black => Dir::South,
    }
}

/// The forward moves of one pawn: the single push (a promotion on the
/// last rank) and, from the start rank through two free squares, the
/// double push that sets the en-passant target.
pub open spec fn spec_pawn_pushes(p: Position, s: Square) -> Seq<Move> {
    let c = p.side_to_move;
    let pc = Piece { color: c, kind: PieceKind::Pawn };
    let occ = spec_occ(p);
    let one_free = spec_shift(pawn_dir(c), sq_bit(s)) & !occ;
    if one_free != 0 {
        let t = spec_first_square(one_free);
        let base = if spec_promo_rank(c, t) {
            spec_promotions(s, t, c, Option::None)
        } else {
            seq![Move { from: s, to: t, piece: pc, flag: MoveFlag::Quiet }]
        };
        let dbl = if spec_start_rank(c, s) {
            let two_free = spec_shift(pawn_dir(c), one_free) & !occ;
            if two_free != 0 {
                seq![
                    Move {
                        from: s,
                        to: spec_first_square(two_free),
                        piece: pc,
                        flag: MoveFlag::PawnDoubleMove(t),
                    },
                ]
            } else {
                Seq::empty()
            }
        } else {
            Seq::empty()
        };
        base + dbl
    } else {
        Seq::empty()
    }
}

/// The moves a pawn emits for one diagonal target: a capture of an enemy
/// piece that is not a king, promoting on the last rank.
pub open spec fn spec_pawn_capture_at(p: Position, s: Square, t: Square) -> Seq<Move> {
    let c = p.side_to_move;
    let pc = Piece { color: c, kind: PieceKind::Pawn };
    match spec_piece_at(p, t) {
        Option::Some(cp) => if t != s && cp.color != c && cp.kind != PieceKind::King {
            if spec_promo_rank(c, t) {
                spec_promotions(s, t, c, Option::Some(cp))
            } else {
                seq![Move { from: s, to: t, piece: pc, flag: MoveFlag::Capture(cp) }]
            }
        } else {
            Seq::empty()
        },
        Option::None => Seq::empty(),
    }
}

/// The diagonal captures of one pawn, walking its targets from a8
/// onwards.
pub open spec fn spec_pawn_capture_list(p: Position, s: Square, targets: u64) -> Seq<Move>
    decreases targets,
    via spec_pawn_capture_list_decreases
{
    if targets == 0 {
        Seq::empty()
    } else {
        let t = spec_first_square(targets);
        spec_pawn_capture_at(p, s, t) + spec_pawn_capture_list(p, s, targets ^ sq_bit(t))
    }
}

#[via_fn]
proof fn spec_pawn_capture_list_decreases(p: Position, s: Square, targets: u64) {
    if targets != 0 {
        crate::bitboard::lemma_first_square(targets);
        crate::bitboard::lemma_xor_clear_shrinks(targets, spec_first_square(targets));
    }
}

/// The en-passant capture of one pawn, when the target is set, reachable,
/// free, and the enemy pawn stands beside it.
pub open spec fn spec_en_passant_moves(p: Position, s: Square) -> Seq<Move> {
    let c = p.side_to_move;
    let pc = Piece { color: c, kind: PieceKind::Pawn };
    let occ = spec_occ(p);
    match p.en_passant {
        Option::Some(eps) => if eps < 64 && (spec_pawn_attacks(c, sq_bit(s)) & sq_bit(eps)) != 0 {
            let cs_ok = match c {
                Color::White => eps < 56,
                Color::Black => eps >= 8,
            };
            if cs_ok {
                let cs = (match c {
                    Color::White => eps + 8,
                    Color::Black => eps - 8,
                }) as Square;
                let enemy_pawn = Piece { color: c.spec_opposite(), kind: PieceKind::Pawn };
                if bb_has(spec_board(p, enemy_pawn), cs) && !bb_has(occ, eps) && cs != s && cs
                    != eps && eps != s {
                    seq![
                        Move { from: s, to: eps, piece: pc, flag: MoveFlag::EnPassantCapture(cs) },
                    ]
                } else {
                    Seq::empty()
                }
            } else {
                Seq::empty()
            }
        } else {
            Seq::empty()
        },
        Option::None => Seq::empty(),
    }
}

/// All moves of one pawn: pushes, then diagonal captures, then the
/// en-passant capture.
pub open spec fn spec_pawn_moves(p: Position, s: Square) -> Seq<Move> {
    let c = p.side_to_move;
    spec_pawn_pushes(p, s) + spec_pawn_capture_list(
        p,
        s,
        spec_pawn_attacks(c, sq_bit(s)) & spec_color_occ(p, c.spec_opposite()),
    ) + spec_en_passant_moves(p, s)
}

/// The kingside castle, when the right is held, king and rook stand on
/// their squares, the squares between are free and the king's path is
/// unattacked.
pub open spec fn spec_kingside_castle(p: Position) -> Seq<Move> {
    let c = p.side_to_move;
    let king = Piece { color: c, kind: PieceKind::King };
    let rook = Piece { color: c, kind: PieceKind::Rook };
    let occ = spec_occ(p);
    let att = spec_attack_set(p, c.spec_opposite());
    let right = match c {
        Color::White => p.castle_white_king,
        Color::Black => p.castle_black_king,
    };
    let ks = crate::position::king_start(c);
    let kk = crate::position::kc_king_to(c);
    let krf = crate::position::kc_rook_from(c);
    let krt = crate::position::kc_rook_to(c);
    if right && bb_has(spec_board(p, king), ks) && bb_has(spec_board(p, rook), krf) && occ & (
    sq_bit(krt) | sq_bit(kk)) == 0 && att & ((sq_bit(ks) | sq_bit(krt)) | sq_bit(kk)) == 0 {
        seq![Move { from: ks, to: kk, piece: king, flag: MoveFlag::KingCastle }]
    } else {
        Seq::empty()
    }
}

/// The queenside castle, under the matching conditions, including the
/// free square the rook alone passes over.
pub open spec fn spec_queenside_castle(p: Position) -> Seq<Move> {
    let c = p.side_to_move;
    let king = Piece { color: c, kind: PieceKind::King };
    let rook = Piece { color: c, kind: PieceKind::Rook };
    let occ = spec_occ(p);
    let att = spec_attack_set(p, c.spec_opposite());
    let right = match c {
        Color::White => p.castle_white_queen,
        Color::Black => p.castle_black_queen,
    };
    let ks = crate::position::king_start(c);
    let qk = crate::position::qc_king_to(c);
    let qrf = crate::position::qc_rook_from(c);
    let qrt = crate::position::qc_rook_to(c);
    let qp = crate::position::qc_pass(c);
    if right && bb_has(spec_board(p, king), ks) && bb_has(spec_board(p, rook), qrf) && occ & ((
    sq_bit(qp) | sq_bit(qk)) | sq_bit(qrt)) == 0 && att & ((sq_bit(ks) | sq_bit(qrt)) | sq_bit(qk))
        == 0 {
        seq![Move { from: ks, to: qk, piece: king, flag: MoveFlag::QueenCastle }]
    } else {
        Seq::empty()
    }
}

/// Both castle moves whose conditions hold.
pub open spec fn spec_castle_moves(p: Position) -> Seq<Move> {
    spec_kingside_castle(p) + spec_queenside_castle(p)
}

/// The pseudo-legal moves of the piece standing on one square, if it
/// belongs to the side to move.
pub open spec fn spec_square_moves(p: Position, s: Square) -> Seq<Move> {
    match spec_piece_at(p, s) {
        Option::Some(pc) => if pc.color == p.side_to_move {
            if pc.kind == PieceKind::Pawn {
                spec_pawn_moves(p, s)
            } else {
                spec_attack_move_list(
                    p,
                    s,
                    pc,
                    spec_attacks(pc.kind, pc.color, sq_bit(s), spec_occ(p)) & !spec_color_occ(
                        p,
                        pc.color,
                    ),
                )
            }
        } else {
            Seq::empty()
        },
        Option::None => Seq::empty(),
    }
}

/// The pseudo-legal moves found on the first `n` squares.
pub open spec fn spec_pseudo_upto(p: Position, n: nat) -> Seq<Move>
    decreases n,
{
    if n == 0 {
        Seq::empty()
    } else {
        spec_pseudo_upto(p, (n - 1) as nat) + spec_square_moves(p, (n - 1) as Square)
    }
}

/// Every pseudo-legal move: square by square from a8, then the castles.
pub open spec fn spec_pseudo_moves(p: Position) -> Seq<Move> {
    spec_pseudo_upto(p, 64) + spec_castle_moves(p)
}

/// A move is safe when it does not leave the mover's own king attacked.
pub open spec fn move_safe(p: Position, m: Move) -> bool {
    !spec_in_check(spec_make(p, m), p.side_to_move)
}

/// The safe moves of a list, in their order.
pub open spec fn spec_keep_safe(p: Position, ms: Seq<Move>) -> Seq<Move>
    decreases ms.len(),
{
    if ms.len() == 0 {
        Seq::empty()
    } else {
        let pre = spec_keep_safe(p, ms.drop_last());
        if move_safe(p, ms.last()) {
            pre.push(ms.last())
        } else {
            pre
        }
    }
}

/// What the generator returns: the pseudo-legal moves with every move
/// that leaves the king attacked filtered out.
pub open spec fn spec_generate(p: Position) -> Seq<Move> {
    spec_keep_safe(p, spec_pseudo_moves(p))
}

/// How a generation helper grows the move list: the old entries stay in
/// place and every new entry is applicable and castle-checked.
pub open spec fn gen_extends(p: Position, pre: Seq<Move>, post: Seq<Move>) -> bool {
    &&& post.len() >= pre.len()
    &&& forall|i: int| 0 <= i < pre.len() ==> post[i] == pre[i]
    &&& forall|i: int|
        pre.len() <= i < post.len() ==> applicable(p, #[trigger] post[i]) && castle_ok(p, post[i])
}

/// Emits the quiet moves and captures of one non-pawn piece standing on
/// square `s`.
fn gen_attack_moves(p: &Position, s: Square, pc: Piece, out: &mut Vec<Move>)
    requires
        s < 64,
        pc.color == p.side_to_move,
        bb_has(spec_board(*p, pc), s),
        pc.kind != PieceKind::Pawn,
    ensures
        gen_extends(*p, old(out)@, final(out)@),
        final(out)@ == old(out)@ + spec_attack_move_list(
            *p,
            s,
            pc,
            spec_attacks(pc.kind, pc.color, sq_bit(s), spec_occ(*p)) & !spec_color_occ(
                *p,
                pc.color,
            ),
        ),
{
    let ghost pre = out@;
    proof {
        lemma_board_subset_occ(*p, pc, s);
    }
    let occ = p.occupancy().0;
    let own = p.color_occupancy(pc.color).0;
    let att = attacks(pc.kind, pc.color, MSB_BIT >> s, occ) & !own;
    let mut t_board = Bitboard(att);
    while t_board.0 != 0
        invariant
            s < 64,
            pc.color == p.side_to_move,
            bb_has(spec_board(*p, pc), s),
            occupied(*p, s),
            gen_extends(*p, pre, out@),
            pre + spec_attack_move_list(*p, s, pc, att) == out@ + spec_attack_move_list(
                *p,
                s,
                pc,
                t_board.0,
            ),
        decreases t_board.0,
    {
        let ghost rem = t_board.0;
        let ghost out0 = out@;
        let t = t_board.pop_first_square();
        proof {
            assert(spec_attack_move_list(*p, s, pc, rem) == spec_target_moves(*p, s, pc, t)
                + spec_attack_move_list(*p, s, pc, t_board.0));
        }
        match p.piece_at(t) {
            None => {
                out.push(
                    Move { from: s, to: t, piece: pc, flag: MoveFlag::Quiet },
                );
                proof {
                    assert(out@ =~= out0 + spec_target_moves(*p, s, pc, t));
                }
            },
            Some(cp) => {
                if t != s && cp.color != pc.color && cp.kind != PieceKind::King {
                    proof {
                        match cp.color {
                            Color::White => {},
                            Color::Black => {},
                        }
                    }
                    out.push(
                        Move { from: s, to: t, piece: pc, flag: MoveFlag::Capture(cp) },
                    );
                    proof {
                        assert(out@ =~= out0 + spec_target_moves(*p, s, pc, t));
                    }
                } else {
                    proof {
                        assert(out@ =~= out0 + spec_target_moves(*p, s, pc, t));
                    }
                }
            },
        }
        proof {
            assert((out0 + spec_target_moves(*p, s, pc, t)) + spec_attack_move_list(
                *p,
                s,
                pc,
                t_board.0,
            ) =~= out0 + (spec_target_moves(*p, s, pc, t) + spec_attack_move_list(
                *p,
                s,
                pc,
                t_board.0,
            )));
        }
    }
    proof {
        assert(out@ + spec_attack_move_list(*p, s, pc, 0u64) =~= out@);
        assert(final(out)@ =~= pre + spec_attack_move_list(*p, s, pc, att));
    }
}

/// Emits the pushes, double pushes, captures, promotions and en-passant
/// captures of one pawn standing on square `s`.
fn gen_pawn_moves(p: &Position, s: Square, out: &mut Vec<Move>)
    requires
        s < 64,
        bb_has(
            spec_board(*p, Piece { color: p.side_to_move, kind: PieceKind::Pawn }),
            s,
        ),
    ensures
        gen_extends(*p, old(out)@, final(out)@),
        final(out)@ == old(out)@ + spec_pawn_moves(*p, s),
{
    let ghost pre = out@;
    let c = p.side_to_move;
    gen_pawn_pushes(p, s, out);
    gen_pawn_captures(p, s, out);
    gen_pawn_ep(p, s, out);
    proof {
        let sp = spec_pawn_pushes(*p, s);
        let cl = spec_pawn_capture_list(
            *p,
            s,
            spec_pawn_attacks(c, sq_bit(s)) & spec_color_occ(*p, c.spec_opposite()),
        );
        let ep = spec_en_passant_moves(*p, s);
        assert(out@ =~= ((pre + sp) + cl) + ep);
        assert(((pre + sp) + cl) + ep =~= pre + ((sp + cl) + ep));
        assert(spec_pawn_moves(*p, s) == (sp + cl) + ep);
    }
}

/// Emits the single and double pushes of one pawn, promoting on the last
/// rank.
#[verifier::spinoff_prover]
#[verifier::rlimit(100)]
fn gen_pawn_pushes(p: &Position, s: Square, out: &mut Vec<Move>)
    requires
        s < 64,
        bb_has(
            spec_board(*p, Piece { color: p.side_to_move, kind: PieceKind::Pawn }),
            s,
        ),
    ensures
        gen_extends(*p, old(out)@, final(out)@),
        final(out)@ == old(out)@ + spec_pawn_pushes(*p, s),
{
    let ghost pre = out@;
    let c = p.side_to_move;
    let pc = Piece { color: c, kind: PieceKind::Pawn };
    proof {
        lemma_board_subset_occ(*p, pc, s);
    }
    let occ = p.occupancy().0;
    let b = MSB_BIT >> s;
    let fwd = match c {
        Color::White => Dir::North,
        Color::Black => Dir::South,
    };
    let one_free = shift(fwd, b) & !occ;
    if one_free != 0 {
        let t = Bitboard(one_free).get_first_square();
        let promo_rank = match c {
            Color::White => t < 8,
            Color::Black => t >= 56,
        };
        if promo_rank {
            push_promotions(p, s, t, c, None, out);
        } else {
            out.push(Move { from: s, to: t, piece: pc, flag: MoveFlag::Quiet });
        }
        let ghost base_done = out@;
        let start_rank = match c {
            Color::White => 48 <= s && s < 56,
            Color::Black => 8 <= s && s < 16,
        };
        let two_free = shift(fwd, one_free) & !occ;
        if start_rank && two_free != 0 {
            let t2 = Bitboard(two_free).get_first_square();
            out.push(
                Move { from: s, to: t2, piece: pc, flag: MoveFlag::PawnDoubleMove(t) },
            );
        }
        proof {
            let base = if spec_promo_rank(c, t) {
                spec_promotions(s, t, c, Option::None)
            } else {
                seq![Move { from: s, to: t, piece: pc, flag: MoveFlag::Quiet }]
            };
            let dbl = if spec_start_rank(c, s) && two_free != 0 {
                seq![
                    Move {
                        from: s,
                        to: spec_first_square(two_free),
                        piece: pc,
                        flag: MoveFlag::PawnDoubleMove(t),
                    },
                ]
            } else {
                Seq::<Move>::empty()
            };
            assert(base_done =~= pre + base);
            assert(out@ =~= base_done + dbl);
            assert((pre + base) + dbl =~= pre + (base + dbl));
            assert(spec_pawn_pushes(*p, s) == base + dbl);
            assert(out@ =~= pre + spec_pawn_pushes(*p, s));
        }
    } else {
        proof {
            assert(out@ =~= pre + spec_pawn_pushes(*p, s));
        }
    }
}

/// Emits the diagonal captures of one pawn, promoting on the last rank.
#[verifier::spinoff_prover]
#[verifier::rlimit(100)]
fn gen_pawn_captures(p: &Position, s: Square, out: &mut Vec<Move>)
    requires
        s < 64,
        bb_has(
            spec_board(*p, Piece { color: p.side_to_move, kind: PieceKind::Pawn }),
            s,
        ),
    ensures
        gen_extends(*p, old(out)@, final(out)@),
        final(out)@ == old(out)@ + spec_pawn_capture_list(
            *p,
            s,
            spec_pawn_attacks(p.side_to_move, sq_bit(s)) & spec_color_occ(
                *p,
                p.side_to_move.spec_opposite(),
            ),
        ),
{
    let ghost pre = out@;
    let c = p.side_to_move;
    let pc = Piece { color: c, kind: PieceKind::Pawn };
    proof {
        lemma_board_subset_occ(*p, pc, s);
    }
    let b = MSB_BIT >> s;
    let enemy = p.color_occupancy(c.opposite()).0;
    let caps0 = pawn_attacks(c, b) & enemy;
    let mut caps = Bitboard(caps0);
    while caps.0 != 0
        invariant
            s < 64,
            c == p.side_to_move,
            pc == (Piece { color: c, kind: PieceKind::Pawn }),
            bb_has(spec_board(*p, pc), s),
            occupied(*p, s),
            gen_extends(*p, pre, out@),
            pre + spec_pawn_capture_list(*p, s, caps0) == out@ + spec_pawn_capture_list(
                *p,
                s,
                caps.0,
            ),
        decreases caps.0,
    {
        let ghost rem = caps.0;
        let ghost out0 = out@;
        let t = caps.pop_first_square();
        proof {
            assert(spec_pawn_capture_list(*p, s, rem) == spec_pawn_capture_at(*p, s, t)
                + spec_pawn_capture_list(*p, s, caps.0));
        }
        match p.piece_at(t) {
            Some(cp) => {
                if t != s && cp.color != c && cp.kind != PieceKind::King {
                    proof {
                        match cp.color {
                            Color::White => {},
                            Color::Black => {},
                        }
                    }
                    let promo_rank = match c {
                        Color::White => t < 8,
                        Color::Black => t >= 56,
                    };
                    if promo_rank {
                        push_promotions(p, s, t, c, Some(cp), out);
                    } else {
                        out.push(
                            Move { from: s, to: t, piece: pc, flag: MoveFlag::Capture(cp) },
                        );
                    }
                }
            },
            None => {},
        }
        proof {
            assert(out@ =~= out0 + spec_pawn_capture_at(*p, s, t));
            assert((out0 + spec_pawn_capture_at(*p, s, t)) + spec_pawn_capture_list(
                *p,
                s,
                caps.0,
            ) =~= out0 + (spec_pawn_capture_at(*p, s, t) + spec_pawn_capture_list(*p, s, caps.0)));
        }
    }
    proof {
        assert(out@ + spec_pawn_capture_list(*p, s, 0u64) =~= out@);
    }
}

/// Emits the en-passant capture of one pawn when every condition holds.
#[verifier::spinoff_prover]
#[verifier::rlimit(100)]
fn gen_pawn_ep(p: &Position, s: Square, out: &mut Vec<Move>)
    requires
        s < 64,
        bb_has(
            spec_board(*p, Piece { color: p.side_to_move, kind: PieceKind::Pawn }),
            s,
        ),
    ensures
        gen_extends(*p, old(out)@, final(out)@),
        final(out)@ == old(out)@ + spec_en_passant_moves(*p, s),
{
    let ghost pre = out@;
    let c = p.side_to_move;
    let pc = Piece { color: c, kind: PieceKind::Pawn };
    proof {
        lemma_board_subset_occ(*p, pc, s);
    }
    let occ = p.occupancy().0;
    let b = MSB_BIT >> s;
    match p.en_passant {
        Some(eps) => {
            if eps < 64 && (pawn_attacks(c, b) & (MSB_BIT >> eps)) != 0 {
                let cs_ok = match c {
                    Color::White => eps < 56,
                    Color::Black => eps >= 8,
                };
                if cs_ok {
                    let cs = match c {
                        Color::White => eps + 8,
                        Color::Black => eps - 8,
                    };
                    let enemy_pawn = Piece { color: c.opposite(), kind: PieceKind::Pawn };
                    let on_board = p.board(enemy_pawn).0 & (MSB_BIT >> cs) != 0;
                    let eps_free = occ & (MSB_BIT >> eps) == 0;
                    if on_board && eps_free && cs != s && cs != eps && eps != s {
                        proof {
                            match c {
                                Color::White => {},
                                Color::Black => {},
                            }
                        }
                        out.push(
                            Move {
                                from: s,
                                to: eps,
                                piece: pc,
                                flag: MoveFlag::EnPassantCapture(cs),
                            },
                        );
                    }
                }
            }
        },
        None => {},
    }
    proof {
        assert(out@ =~= pre + spec_en_passant_moves(*p, s));
    }
}

/// Emits the four promotion choices for a pawn stepping or capturing onto
/// the last rank.
fn push_promotions(
    p: &Position,
    s: Square,
    t: Square,
    c: Color,
    cp: Option<Piece>,
    out: &mut Vec<Move>,
)
    requires
        s < 64,
        t < 64,
        t != s,
        c == p.side_to_move,
        bb_has(spec_board(*p, Piece { color: c, kind: PieceKind::Pawn }), s),
        match cp {
            None => !occupied(*p, t),
            Some(x) => {
                &&& x.color == c.spec_opposite()
                &&& x.kind != PieceKind::King
                &&& bb_has(spec_board(*p, x), t)
            },
        },
    ensures
        gen_extends(*p, old(out)@, final(out)@),
        final(out)@ == old(out)@ + spec_promotions(s, t, c, cp),
{
    let pc = Piece { color: c, kind: PieceKind::Pawn };
    let np_n = Piece { color: c, kind: PieceKind::Knight };
    let np_b = Piece { color: c, kind: PieceKind::Bishop };
    let np_r = Piece { color: c, kind: PieceKind::Rook };
    let np_q = Piece { color: c, kind: PieceKind::Queen };
    match cp {
        None => {
            out.push(Move { from: s, to: t, piece: pc, flag: MoveFlag::Promotion(np_n) });
            out.push(Move { from: s, to: t, piece: pc, flag: MoveFlag::Promotion(np_b) });
            out.push(Move { from: s, to: t, piece: pc, flag: MoveFlag::Promotion(np_r) });
            out.push(Move { from: s, to: t, piece: pc, flag: MoveFlag::Promotion(np_q) });
        },
        Some(x) => {
            out.push(
                Move { from: s, to: t, piece: pc, flag: MoveFlag::CapturePromotion(x, np_n) },
            );
            out.push(
                Move { from: s, to: t, piece: pc, flag: MoveFlag::CapturePromotion(x, np_b) },
            );
            out.push(
                Move { from: s, to: t, piece: pc, flag: MoveFlag::CapturePromotion(x, np_r) },
            );
            out.push(
                Move { from: s, to: t, piece: pc, flag: MoveFlag::CapturePromotion(x, np_q) },
            );
        },
    }
    proof {
        assert forall|i: int|
            old(out)@.len() <= i < out@.len() implies applicable(*p, #[trigger] out@[i])
            && castle_ok(*p, out@[i]) by {
            let n = old(out)@.len() as int;
            if i == n {
            } else if i == n + 1 {
            } else if i == n + 2 {
            } else {
                assert(i == n + 3);
            }
        }
        assert(out@ =~= old(out)@ + spec_promotions(s, t, c, cp));
    }
}

/// Emits the castle moves whose rights, free squares and attack
/// conditions all hold.
fn gen_castles(p: &Position, out: &mut Vec<Move>)
    ensures
        gen_extends(*p, old(out)@, final(out)@),
        final(out)@ == old(out)@ + spec_castle_moves(*p),
{
    let ghost pre = out@;
    let c = p.side_to_move;
    let king = Piece { color: c, kind: PieceKind::King };
    let rook = Piece { color: c, kind: PieceKind::Rook };
    let occ = p.occupancy().0;
    let att = attack_set(p, c.opposite());
    let right_k = match c {
        Color::White => p.castle_white_king,
        Color::Black => p.castle_black_king,
    };
    let right_q = match c {
        Color::White => p.castle_white_queen,
        Color::Black => p.castle_black_queen,
    };
    let (ks, kk, krf, krt): (u8, u8, u8, u8) = match c {
        Color::White => (60, 62, 63, 61),
        Color::Black => (4, 6, 7, 5),
    };
    if right_k && p.board(king).0 & (MSB_BIT >> ks) != 0 && p.board(rook).0 & (MSB_BIT >> krf) != 0
        && occ & ((MSB_BIT >> krt) | (MSB_BIT >> kk)) == 0 && att & ((MSB_BIT >> ks) | (MSB_BIT
        >> krt) | (MSB_BIT >> kk)) == 0 {
        proof {
            crate::bitboard::lemma_squares_of_disjoint(occ, sq_bit(krt) | sq_bit(kk));
            crate::bitboard::lemma_squares_of_disjoint(
                att,
                (sq_bit(ks) | sq_bit(krt)) | sq_bit(kk),
            );
        }
        out.push(Move { from: ks, to: kk, piece: king, flag: MoveFlag::KingCastle });
    }
    proof {
        assert(out@ =~= pre + spec_kingside_castle(*p));
    }
    let (qk, qrf, qrt, qp): (u8, u8, u8, u8) = match c {
        Color::White => (58, 56, 59, 57),
        Color::Black => (2, 0, 3, 1),
    };
    if right_q && p.board(king).0 & (MSB_BIT >> ks) != 0 && p.board(rook).0 & (MSB_BIT >> qrf) != 0
        && occ & ((MSB_BIT >> qp) | (MSB_BIT >> qk) | (MSB_BIT >> qrt)) == 0 && att & ((MSB_BIT
        >> ks) | (MSB_BIT >> qrt) | (MSB_BIT >> qk)) == 0 {
        proof {
            crate::bitboard::lemma_squares_of_disjoint(occ, (sq_bit(qp) | sq_bit(qk)) | sq_bit(qrt));
            crate::bitboard::lemma_squares_of_disjoint(
                att,
                (sq_bit(ks) | sq_bit(qrt)) | sq_bit(qk),
            );
        }
        out.push(Move { from: ks, to: qk, piece: king, flag: MoveFlag::QueenCastle });
    }
    proof {
        assert(out@ =~= (pre + spec_kingside_castle(*p)) + spec_queenside_castle(*p));
        assert(out@ =~= pre + spec_castle_moves(*p));
    }
}

/// Produces the legal moves of the position: exactly the pseudo-legal
/// moves, square by square then castles, with every move that leaves the
/// moving side's king attacked filtered out.  Every returned move is
/// applicable to `p` and passed its castle checks.  A position with an
/// empty result is mate or stalemate, told apart by `in_check`.
#[verifier::loop_isolation(false)]
#[verifier::rlimit(60)]
pub fn generate(p: &Position) -> (r: Vec<Move>)
    requires
        p.fullmove_number < u32::MAX,
        p.halfmove_clock < u32::MAX,
    ensures
        r@ == spec_generate(*p),
        forall|i: int| 0 <= i < r@.len() ==> applicable(*p, #[trigger] r@[i]),
        forall|i: int| 0 <= i < r@.len() ==> castle_ok(*p, #[trigger] r@[i]),
        forall|i: int|
            0 <= i < r@.len() ==> !spec_in_check(
                spec_make(*p, #[trigger] r@[i]),
                p.side_to_move,
            ),
{
    let mut pseudo: Vec<Move> = Vec::new();
    let mut s: u8 = 0;
    while s < 64
        invariant
            s <= 64,
            gen_extends(*p, Seq::<Move>::empty(), pseudo@),
            pseudo@ == spec_pseudo_upto(*p, s as nat),
        decreases 64 - s,
    {
        let ghost before = pseudo@;
        match p.piece_at(s) {
            Some(pc) => {
                if pc.color == p.side_to_move {
                    if pc.kind == PieceKind::Pawn {
                        gen_pawn_moves(p, s, &mut pseudo);
                    } else {
                        gen_attack_moves(p, s, pc, &mut pseudo);
                    }
                }
            },
            None => {},
        }
        proof {
            assert(pseudo@ =~= before + spec_square_moves(*p, s));
        }
        s = s + 1;
    }
    gen_castles(p, &mut pseudo);
    proof {
        assert(pseudo@ =~= spec_pseudo_upto(*p, 64) + spec_castle_moves(*p));
        assert(pseudo@ == spec_pseudo_moves(*p));
    }
    let mover = p.side_to_move;
    let mut out: Vec<Move> = Vec::new();
    let mut i: usize = 0;
    while i < pseudo.len()
        invariant
            mover == p.side_to_move,
            i <= pseudo@.len(),
            out@ == spec_keep_safe(*p, pseudo@.take(i as int)),
            forall|j: int| 0 <= j < out@.len() ==> applicable(*p, #[trigger] out@[j]),
            forall|j: int| 0 <= j < out@.len() ==> castle_ok(*p, #[trigger] out@[j]),
            forall|j: int|
                0 <= j < out@.len() ==> !spec_in_check(
                    spec_make(*p, #[trigger] out@[j]),
                    mover,
                ),
        decreases pseudo.len() - i,
    {
        let m = pseudo[i];
        let mut child = *p;
        let _u = child.make(&m);
        proof {
            assert(pseudo@.take(i as int + 1).drop_last() =~= pseudo@.take(i as int));
            assert(pseudo@.take(i as int + 1).last() == pseudo@[i as int]);
        }
        if !in_check(&child, mover) {
            out.push(m);
        }
        i = i + 1;
    }
    proof {
        assert(pseudo@.take(pseudo@.len() as int) =~= pseudo@);
    }
    out
}

/// The state of the side to move: mated, stalemated, or still playing.
#[derive(Clone, Copy, PartialEq, Eq, Structural, Debug)]
pub enum GameStatus {
    Checkmate,
    Stalemate,
    Ongoing,
}

/// Classifies the position for the side to move: checkmate when no legal
/// move is left and the king stands attacked, stalemate when no legal
/// move is left and it does not, and ongoing exactly when a legal move
/// exists.
pub fn status_of(p: &Position) -> (r: GameStatus)
    requires
        p.fullmove_number < u32::MAX,
        p.halfmove_clock < u32::MAX,
    ensures
        r == GameStatus::Checkmate <==> (spec_generate(*p).len() == 0 && spec_in_check(
            *p,
            p.side_to_move,
        )),
        r == GameStatus::Stalemate <==> (spec_generate(*p).len() == 0 && !spec_in_check(
            *p,
            p.side_to_move,
        )),
        r == GameStatus::Ongoing <==> spec_generate(*p).len() > 0,
{
    let moves = generate(p);
    if moves.len() == 0 {
        if in_check(p, p.side_to_move) {
            GameStatus::Checkmate
        } else {
            GameStatus::Stalemate
        }
    } else {
        GameStatus::Ongoing
    }
}

} // verus!

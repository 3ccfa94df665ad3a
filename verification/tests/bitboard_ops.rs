use chess_core::bitboard::Bitboard;
use chess_core::utility::{square_from_algebraic, FileBoundMask};

#[test]
fn shifted_board_sets_one_bit() {
    assert_eq!(Bitboard::shifted_board(0).0, 0x8000_0000_0000_0000);
    assert_eq!(Bitboard::shifted_board(63).0, 1);
    assert_eq!(Bitboard::shifted_board(8).0, 0x0080_0000_0000_0000);
}

#[test]
fn empty_and_nonempty() {
    assert!(Bitboard(0).is_empty());
    assert!(!Bitboard(4).is_empty());
}

#[test]
fn first_and_last_square() {
    let b = Bitboard(0x0100_0000_0000_0080);
    assert_eq!(b.get_first_square(), 7);
    assert_eq!(b.get_last_square(), 56);
    let single = Bitboard::shifted_board(33);
    assert_eq!(single.get_first_square(), 33);
    assert_eq!(single.get_last_square(), 33);
}

#[test]
fn pop_first_square_removes_in_order() {
    let mut b = Bitboard::shifted_board(3).or(Bitboard::shifted_board(40));
    assert_eq!(b.pop_first_square(), 3);
    assert_eq!(b.pop_first_square(), 40);
    assert!(b.is_empty());
}

#[test]
fn bitwise_ops_match_u64() {
    let a = Bitboard(0xF0F0);
    let b = Bitboard(0x0FF0);
    assert_eq!(a.and(b).0, 0xF0F0u64 & 0x0FF0);
    assert_eq!(a.or(b).0, 0xF0F0u64 | 0x0FF0);
    assert_eq!(a.xor(b).0, 0xF0F0u64 ^ 0x0FF0);
    assert_eq!(a.not().0, !0xF0F0u64);
}

#[test]
fn shifts_with_negative_amounts() {
    let a = Bitboard(0x00FF);
    assert_eq!(a.shift_left(8).0, 0xFF00);
    assert_eq!(a.shift_left(-4).0, 0x000F);
    assert_eq!(a.shift_right(4).0, 0x000F);
    assert_eq!(a.shift_right(-8).0, 0xFF00);
}

#[test]
fn algebraic_corners() {
    assert_eq!(square_from_algebraic("a8"), Some(0));
    assert_eq!(square_from_algebraic("h8"), Some(7));
    assert_eq!(square_from_algebraic("a1"), Some(56));
    assert_eq!(square_from_algebraic("h1"), Some(63));
    assert_eq!(square_from_algebraic("e4"), Some(36));
    assert_eq!(square_from_algebraic("b4"), Some(33));
}

#[test]
fn algebraic_rejects_bad_input() {
    assert_eq!(square_from_algebraic(""), None);
    assert_eq!(square_from_algebraic("a"), None);
    assert_eq!(square_from_algebraic("i3"), None);
    assert_eq!(square_from_algebraic("a9"), None);
    assert_eq!(square_from_algebraic("a0"), None);
    assert_eq!(square_from_algebraic("54"), None);
}

#[test]
fn file_masks_clear_one_file() {
    // File a squares are the most significant bit of each rank byte.
    for rank in 0..8u32 {
        let a_file_bit = 1u64 << (63 - rank * 8);
        assert_eq!(FileBoundMask::A & a_file_bit, 0);
        let h_file_bit = 1u64 << (56 - rank * 8);
        assert_eq!(FileBoundMask::H & h_file_bit, 0);
    }
    assert_eq!(FileBoundMask::A.count_ones(), 56);
    assert_eq!(FileBoundMask::B.count_ones(), 56);
    assert_eq!(FileBoundMask::G.count_ones(), 56);
    assert_eq!(FileBoundMask::H.count_ones(), 56);
}

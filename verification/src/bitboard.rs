//! A 64-bit set-of-squares primitive.
//!
//! Square 0 is a8 and corresponds to the most significant bit of the word;
//! square 63 is h1 and corresponds to the least significant bit:
//!
//! ```text
//! (MSB) 0  1  2  3  4  5  6  7
//!       8  9  10 11 12 13 14 15
//!       ...
//!       56 57 58 59 60 61 62 63 (LSB)
//! ```

use vstd::prelude::*;
use vstd::std_specs::bits::axiom_u64_leading_zeros;
use vstd::std_specs::bits::axiom_u64_trailing_zeros;
use vstd::std_specs::bits::u64_leading_zeros;
use vstd::std_specs::bits::u64_trailing_zeros;

verus! {

/// Index of a board cell, 0..64, rank-major from a8.
pub type Square = u8;

/// The word with only the most significant bit set; shifting it right by a
/// square index yields the single-bit board of that square.
pub const MSB_BIT: u64 = 0x8000_0000_0000_0000;

/// The single-bit word for a square.
pub open spec fn sq_bit(s: Square) -> u64 {
    MSB_BIT >> (s as u64)
}

/// Membership: square `s` is in the set encoded by `b`.
pub open spec fn bb_has(b: u64, s: Square) -> bool {
    b & sq_bit(s) != 0
}

/// Membership distributes over union.
pub broadcast proof fn lemma_bb_or(a: u64, b: u64, s: Square)
    by (bit_vector)
    requires
        s < 64,
    ensures
        #[trigger] bb_has(a | b, s) <==> (bb_has(a, s) || bb_has(b, s)),
{
}

/// Membership distributes over intersection.
pub broadcast proof fn lemma_bb_and(a: u64, b: u64, s: Square)
    by (bit_vector)
    requires
        s < 64,
    ensures
        #[trigger] bb_has(a & b, s) <==> (bb_has(a, s) && bb_has(b, s)),
{
}

/// Membership distributes over symmetric difference.
pub broadcast proof fn lemma_bb_xor(a: u64, b: u64, s: Square)
    by (bit_vector)
    requires
        s < 64,
    ensures
        #[trigger] bb_has(a ^ b, s) <==> (bb_has(a, s) != bb_has(b, s)),
{
}

/// Membership in the complement.
pub broadcast proof fn lemma_bb_not(a: u64, s: Square)
    by (bit_vector)
    requires
        s < 64,
    ensures
        #[trigger] bb_has(!a, s) <==> !bb_has(a, s),
{
}

/// A single-bit board holds exactly its own square, and is never zero.
pub broadcast proof fn lemma_sq_bit(t: Square, s: Square)
    by (bit_vector)
    requires
        s < 64,
        t < 64,
    ensures
        #[trigger] bb_has(sq_bit(t), s) <==> s == t,
        sq_bit(t) != 0,
{
}

/// The empty word holds no square.
pub broadcast proof fn lemma_bb_empty(s: Square)
    by (bit_vector)
    requires
        s < 64,
    ensures
        !#[trigger] bb_has(0u64, s),
{
}

/// The membership facts for the bitwise operators, usable as one group.
pub broadcast group group_bb_algebra {
    lemma_bb_or,
    lemma_bb_and,
    lemma_bb_xor,
    lemma_bb_not,
    lemma_sq_bit,
    lemma_bb_empty,
}

/// Membership restated over the bit index counted from the least
/// significant end, which is how the bit-scan primitives count.
proof fn lemma_bb_has_bit(b: u64, s: Square)
    by (bit_vector)
    requires
        s < 64,
    ensures
        bb_has(b, s) <==> (b >> ((63 - s) as u64)) & 1 == 1,
{
}

/// Removing a set bit by xor subtracts its value, so the word shrinks.
pub proof fn lemma_xor_clear_shrinks(b: u64, s: Square)
    by (bit_vector)
    requires
        s < 64,
        bb_has(b, s),
    ensures
        b ^ sq_bit(s) == b - sq_bit(s),
        b ^ sq_bit(s) < b,
{
}

/// Union of words is commutative.
pub proof fn lemma_or_comm(a: u64, b: u64)
    by (bit_vector)
    ensures
        a | b == b | a,
{
}

/// Xor by the same word twice gives the starting word back.
pub proof fn lemma_xor_cancel(a: u64, m: u64)
    by (bit_vector)
    ensures
        (a ^ m) ^ m == a,
{
}

/// Xor by two words cancels against the same two words in either order.
pub proof fn lemma_xor_cancel2(a: u64, m1: u64, m2: u64)
    by (bit_vector)
    ensures
        (((a ^ m1) ^ m2) ^ m1) ^ m2 == a,
{
}

/// Words with an empty intersection share no square.
pub proof fn lemma_squares_of_disjoint(a: u64, b: u64)
    requires
        a & b == 0,
    ensures
        forall|s: Square| s < 64 ==> !(bb_has(a, s) && bb_has(b, s)),
{
    assert forall|s: Square| s < 64 implies !(bb_has(a, s) && bb_has(b, s)) by {
        lemma_bb_and(a, b, s);
        lemma_bb_empty(s);
    }
}

/// First set square, counted from a8: the leading-zero count.
pub open spec fn spec_first_square(b: u64) -> Square {
    u64_leading_zeros(b) as Square
}

/// Last set square, counted from a8: 63 minus the trailing-zero count.
pub open spec fn spec_last_square(b: u64) -> Square {
    (63 - u64_trailing_zeros(b)) as Square
}

/// Properties of the first set square of a non-empty word.
pub proof fn lemma_first_square(b: u64)
    requires
        b != 0,
    ensures
        spec_first_square(b) < 64,
        bb_has(b, spec_first_square(b)),
        forall|t: Square| t < spec_first_square(b) ==> !bb_has(b, t),
{
    axiom_u64_leading_zeros(b);
    let lz = u64_leading_zeros(b);
    let s = lz as Square;
    assert((b >> ((63 - s) as u64)) & 1 == 1) by {
        assert(forall|x: u64| (x & 1 != 0) ==> x & 1 == 1) by (bit_vector);
    }
    lemma_bb_has_bit(b, s);
    assert forall|t: Square| t < s implies !bb_has(b, t) by {
        let j = (63 - t) as u64;
        assert(64 - lz <= j < 64);
        assert((b >> j) & 1u64 == 0u64);
        lemma_bb_has_bit(b, t);
    }
}

/// Properties of the last set square of a non-empty word.
pub proof fn lemma_last_square(b: u64)
    requires
        b != 0,
    ensures
        spec_last_square(b) < 64,
        bb_has(b, spec_last_square(b)),
        forall|t: Square| spec_last_square(b) < t < 64 ==> !bb_has(b, t),
{
    axiom_u64_trailing_zeros(b);
    let tz = u64_trailing_zeros(b);
    let s = (63 - tz) as Square;
    assert((b >> (tz as u64)) & 1u64 == 1u64);
    assert((b >> ((63 - s) as u64)) & 1 == 1);
    lemma_bb_has_bit(b, s);
    assert forall|t: Square| s < t < 64 implies !bb_has(b, t) by {
        let j = (63 - t) as u64;
        assert(0 <= j < tz);
        assert((b >> j) & 1u64 == 0u64);
        lemma_bb_has_bit(b, t);
    }
}

/// A set of squares encoded as a 64-bit word; bit `63 - s` is set iff
/// square `s` is a member.
#[derive(Clone, Copy, PartialEq, Eq, Structural, Debug)]
pub struct Bitboard(pub u64);

impl Bitboard {
    /// True iff the board has no squares set.
    pub fn is_empty(self) -> (r: bool)
        ensures
            r <==> self.0 == 0,
    {
        self.0 == 0
    }

    /// The board holding exactly the given square.
    pub fn shifted_board(square: Square) -> (r: Bitboard)
        requires
            square < 64,
        ensures
            r.0 == sq_bit(square),
    {
        Bitboard(MSB_BIT >> square)
    }

    /// The first member, counting from a8; 64 when the board is empty.
    pub fn get_first_square(self) -> (r: Square)
        ensures
            r == spec_first_square(self.0),
            self.0 == 0 ==> r == 64,
            self.0 != 0 ==> r < 64 && bb_has(self.0, r) && forall|t: Square|
                t < r ==> !bb_has(self.0, t),
    {
        proof {
            axiom_u64_leading_zeros(self.0);
            if self.0 != 0 {
                lemma_first_square(self.0);
            }
        }
        self.0.leading_zeros() as Square
    }

    /// The last member, counting from a8.
    pub fn get_last_square(self) -> (r: Square)
        requires
            self.0 != 0,
        ensures
            r == spec_last_square(self.0),
            r < 64 && bb_has(self.0, r),
            forall|t: Square| r < t < 64 ==> !bb_has(self.0, t),
    {
        proof {
            axiom_u64_trailing_zeros(self.0);
            lemma_last_square(self.0);
        }
        (63 - self.0.trailing_zeros()) as Square
    }

    /// Removes the first member in place and returns it.
    pub fn pop_first_square(&mut self) -> (r: Square)
        requires
            old(self).0 != 0,
        ensures
            r == spec_first_square(old(self).0),
            r < 64,
            bb_has(old(self).0, r),
            final(self).0 == old(self).0 ^ sq_bit(r),
            final(self).0 < old(self).0,
            forall|t: Square| t < 64 ==> (bb_has(final(self).0, t) <==> (bb_has(
                old(self).0,
                t,
            ) && t != r)),
    {
        let square = self.get_first_square();
        proof {
            lemma_xor_clear_shrinks(self.0, square);
            assert forall|t: Square| t < 64 implies (bb_has(self.0 ^ sq_bit(square), t) <==> (
            bb_has(self.0, t) && t != square)) by {
                lemma_bb_xor(self.0, sq_bit(square), t);
                lemma_sq_bit(square, t);
            }
        }
        *self = Bitboard(self.0 ^ (MSB_BIT >> square));
        square
    }

    /// Union of two boards.
    pub fn or(self, rhs: Bitboard) -> (r: Bitboard)
        ensures
            r.0 == self.0 | rhs.0,
    {
        Bitboard(self.0 | rhs.0)
    }

    /// Intersection of two boards.
    pub fn and(self, rhs: Bitboard) -> (r: Bitboard)
        ensures
            r.0 == self.0 & rhs.0,
    {
        Bitboard(self.0 & rhs.0)
    }

    /// Symmetric difference of two boards.
    pub fn xor(self, rhs: Bitboard) -> (r: Bitboard)
        ensures
            r.0 == self.0 ^ rhs.0,
    {
        Bitboard(self.0 ^ rhs.0)
    }

    /// Complement of a board.
    pub fn not(self) -> (r: Bitboard)
        ensures
            r.0 == !self.0,
    {
        Bitboard(!self.0)
    }

    /// Shift towards the least significant end; a negative amount shifts
    /// the opposite way.
    pub fn shift_right(self, rhs: i32) -> (r: Bitboard)
        requires
            -64 < rhs < 64,
        ensures
            rhs >= 0 ==> r.0 == self.0 >> (rhs as u64),
            rhs < 0 ==> r.0 == self.0 << ((-rhs) as u64),
    {
        if rhs >= 0 {
            Bitboard(self.0 >> (rhs as u32))
        } else {
            Bitboard(self.0 << ((-rhs) as u32))
        }
    }

    /// Shift towards the most significant end; a negative amount shifts
    /// the opposite way.
    pub fn shift_left(self, rhs: i32) -> (r: Bitboard)
        requires
            -64 < rhs < 64,
        ensures
            rhs >= 0 ==> r.0 == self.0 << (rhs as u64),
            rhs < 0 ==> r.0 == self.0 >> ((-rhs) as u64),
    {
        if rhs >= 0 {
            Bitboard(self.0 << (rhs as u32))
        } else {
            Bitboard(self.0 >> ((-rhs) as u32))
        }
    }
}

} // verus!

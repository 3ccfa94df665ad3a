//! General helpers: algebraic square names and file-bound masks.

use vstd::prelude::*;
use crate::bitboard::Square;

verus! {

/// What `square_from_algebraic` returns: the rank-major index of a
/// two-character algebraic cell name, or nothing for any other string.
pub open spec fn spec_square_from_algebraic(s: Seq<char>) -> Option<Square> {
    if s.len() < 2 {
        None
    } else {
        let f = s[0] as int;
        let r = s[1] as int;
        if 'a' as int <= f <= 'h' as int && '1' as int <= r <= '8' as int {
            Some(((('8' as int - r) * 8) + (f - 'a' as int)) as Square)
        } else {
            None
        }
    }
}

/// Converts a string in algebraic notation (for example `b4`) to a square
/// index, reading the file letter then the rank digit.
pub fn square_from_algebraic(algebraic: &str) -> (r: Option<Square>)
    ensures
        r == spec_square_from_algebraic(algebraic@),
        r matches Some(q) ==> q < 64,
{
    let len = algebraic.unicode_len();
    if len < 2 {
        return None;
    }
    let fc = algebraic.get_char(0);
    let rc = algebraic.get_char(1);
    let file: Square = match fc {
        'a' => 0,
        'b' => 1,
        'c' => 2,
        'd' => 3,
        'e' => 4,
        'f' => 5,
        'g' => 6,
        'h' => 7,
        _ => {
            return None;
        },
    };
    let rank: Square = match rc {
        '8' => 0,
        '7' => 1,
        '6' => 2,
        '5' => 3,
        '4' => 4,
        '3' => 5,
        '2' => 6,
        '1' => 7,
        _ => {
            return None;
        },
    };
    Some((rank * 8) + file)
}

/// Masks that zero out the squares of one file; used in move generation for
/// bounds checking, bitwise AND-ed with a piece board before a shift so
/// attacks do not wrap across the board edge.
pub struct FileBoundMask;

impl FileBoundMask {
    /// All squares except file a.
    pub const A: u64 = 0x7F7F_7F7F_7F7F_7F7F;

    /// All squares except file b.
    pub const B: u64 = 0xBFBF_BFBF_BFBF_BFBF;

    /// All squares except file g.
    pub const G: u64 = 0xFDFD_FDFD_FDFD_FDFD;

    /// All squares except file h.
    pub const H: u64 = 0xFEFE_FEFE_FEFE_FEFE;
}

} // verus!

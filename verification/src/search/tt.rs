//! Transposition table: a bounded fingerprint-indexed cache of search
//! results with an always-replace policy, and the position fingerprint.

use vstd::prelude::*;
use crate::move_generator::moves::Move;
use crate::position::Position;
use crate::search::Score;

verus! {

/// How a stored score bounds the true value of its node: exact, a lower
/// bound after a beta cutoff, or an upper bound when no move raised alpha.
#[derive(Clone, Copy, PartialEq, Eq, Structural, Debug)]
pub enum BoundKind {
    Exact,
    Lower,
    Upper,
}

/// One cached search result.
#[derive(Clone, Copy, PartialEq, Eq, Debug)]
pub struct TTEntry {
    pub fingerprint: u64,
    pub depth: u8,
    pub score: Score,
    pub bound: BoundKind,
    pub best_move: Option<Move>,
}

/// A fixed-capacity fingerprint-keyed table; each fingerprint maps to the
/// slot it selects by remainder, and storing evicts whatever sat there.
pub struct SearchTT {
    entries: Vec<Option<TTEntry>>,
}

impl SearchTT {
    /// Number of slots.
    pub closed spec fn capacity(self) -> nat {
        self.entries@.len()
    }

    /// Every stored entry sits in the slot its fingerprint selects, and
    /// its score is a score the search could have produced.
    pub closed spec fn wf(self) -> bool {
        &&& self.entries@.len() > 0
        &&& forall|i: int|
            0 <= i < self.entries@.len() ==> (match #[trigger] self.entries@[i] {
                Some(e) => e.fingerprint as int % (self.entries@.len() as int) == i && -30000
                    <= e.score <= 30000,
                None => true,
            })
    }

    /// What probing a fingerprint finds: the entry in its slot, if that
    /// entry was stored under the same fingerprint.
    pub closed spec fn spec_probe(self, fp: u64) -> Option<TTEntry> {
        match self.entries@[fp as int % (self.entries@.len() as int)] {
            Some(e) => if e.fingerprint == fp {
                Some(e)
            } else {
                None
            },
            None => None,
        }
    }

    /// An empty table with the given number of slots.
    pub fn new(capacity: usize) -> (r: SearchTT)
        requires
            capacity > 0,
        ensures
            r.wf(),
            r.capacity() == capacity,
            forall|fp: u64| r.spec_probe(fp) is None,
    {
        let mut v: Vec<Option<TTEntry>> = Vec::new();
        let mut i: usize = 0;
        while i < capacity
            invariant
                i <= capacity,
                v@.len() == i,
                forall|j: int| 0 <= j < i ==> v@[j] is None,
            decreases capacity - i,
        {
            v.push(None);
            i = i + 1;
        }
        SearchTT { entries: v }
    }

    /// Empties every slot, keeping the capacity.
    pub fn clear(&mut self)
        requires
            old(self).wf(),
        ensures
            final(self).wf(),
            final(self).capacity() == old(self).capacity(),
            forall|fp: u64| final(self).spec_probe(fp) is None,
    {
        let n = self.entries.len();
        let mut i: usize = 0;
        while i < n
            invariant
                i <= n,
                self.entries@.len() == n,
                forall|j: int| 0 <= j < i ==> self.entries@[j] is None,
                forall|j: int|
                    i <= j < n ==> self.entries@[j] == old(self).entries@[j],
            decreases n - i,
        {
            self.entries[i] = None;
            i = i + 1;
        }
    }

    /// Looks a fingerprint up.
    pub fn probe(&self, fp: u64) -> (r: Option<TTEntry>)
        requires
            self.wf(),
        ensures
            r == self.spec_probe(fp),
            r matches Some(e) ==> e.fingerprint == fp && -30000 <= e.score <= 30000,
    {
        let idx = (fp % (self.entries.len() as u64)) as usize;
        match self.entries[idx] {
            Some(e) => if e.fingerprint == fp {
                Some(e)
            } else {
                None
            },
            None => None,
        }
    }

    /// Stores an entry, evicting whatever sat in its slot.  Probing the
    /// stored fingerprint afterwards finds exactly this entry; slots of
    /// other remainders are untouched.
    pub fn store(&mut self, e: TTEntry)
        requires
            old(self).wf(),
            -30000 <= e.score <= 30000,
        ensures
            final(self).wf(),
            final(self).capacity() == old(self).capacity(),
            final(self).spec_probe(e.fingerprint) == Some(e),
            forall|fp: u64|
                fp as int % (old(self).capacity() as int) != e.fingerprint as int % (old(
                    self).capacity() as int) ==> final(self).spec_probe(fp) == old(
                    self).spec_probe(fp),
            forall|fp: u64|
                fp != e.fingerprint && fp as int % (old(self).capacity() as int)
                    == e.fingerprint as int % (old(self).capacity() as int) ==> final(
                    self).spec_probe(fp) is None,
    {
        let idx = (e.fingerprint % (self.entries.len() as u64)) as usize;
        self.entries[idx] = Some(e);
    }
}

/// One mixing step of the fingerprint fold: rotate, then fold the next
/// word in.
pub open spec fn spec_mix(h: u64, x: u64) -> u64 {
    ((h << 7) | (h >> 57)) ^ x
}

/// One mixing step of the fingerprint fold.
#[verifier::when_used_as_spec(spec_mix)]
pub fn mix(h: u64, x: u64) -> (r: u64)
    ensures
        r == spec_mix(h, x),
{
    ((h << 7u64) | (h >> 57u64)) ^ x
}

/// The non-board state of a position packed into one word: side to move,
/// the four castling rights, and the en-passant target.
pub open spec fn spec_flags_word(p: Position) -> u64 {
    let side: u64 = if p.side_to_move == crate::move_generator::moves::Color::Black {
        1
    } else {
        0
    };
    let cwk: u64 = if p.castle_white_king {
        2
    } else {
        0
    };
    let cwq: u64 = if p.castle_white_queen {
        4
    } else {
        0
    };
    let cbk: u64 = if p.castle_black_king {
        8
    } else {
        0
    };
    let cbq: u64 = if p.castle_black_queen {
        16
    } else {
        0
    };
    let ep: u64 = match p.en_passant {
        Some(s) => (((s as int) + 1) * 32) as u64,
        None => 0,
    };
    side | cwk | cwq | cbk | cbq | ep
}

/// The non-board state of a position packed into one word.
pub fn flags_word(p: &Position) -> (r: u64)
    ensures
        r == spec_flags_word(*p),
{
    let side: u64 = if p.side_to_move == crate::move_generator::moves::Color::Black {
        1
    } else {
        0
    };
    let cwk: u64 = if p.castle_white_king {
        2
    } else {
        0
    };
    let cwq: u64 = if p.castle_white_queen {
        4
    } else {
        0
    };
    let cbk: u64 = if p.castle_black_king {
        8
    } else {
        0
    };
    let cbq: u64 = if p.castle_black_queen {
        16
    } else {
        0
    };
    let ep: u64 = match p.en_passant {
        Some(s) => (s as u64 + 1) * 32,
        None => 0,
    };
    side | cwk | cwq | cbk | cbq | ep
}

/// The fingerprint of a position: a rotate-xor fold of the twelve piece
/// boards and the packed flags word.  It is a function of the position
/// state alone, so equal positions always fingerprint equally.
pub open spec fn spec_fingerprint(p: Position) -> u64 {
    let h0 = 0x9E37_79B9_7F4A_7C15u64;
    let h1 = spec_mix(h0, p.white_pawns.0);
    let h2 = spec_mix(h1, p.white_knights.0);
    let h3 = spec_mix(h2, p.white_bishops.0);
    let h4 = spec_mix(h3, p.white_rooks.0);
    let h5 = spec_mix(h4, p.white_queens.0);
    let h6 = spec_mix(h5, p.white_king.0);
    let h7 = spec_mix(h6, p.black_pawns.0);
    let h8 = spec_mix(h7, p.black_knights.0);
    let h9 = spec_mix(h8, p.black_bishops.0);
    let h10 = spec_mix(h9, p.black_rooks.0);
    let h11 = spec_mix(h10, p.black_queens.0);
    let h12 = spec_mix(h11, p.black_king.0);
    spec_mix(h12, spec_flags_word(p))
}

/// The fingerprint of a position.
pub fn fingerprint(p: &Position) -> (r: u64)
    ensures
        r == spec_fingerprint(*p),
{
    let mut h: u64 = 0x9E37_79B9_7F4A_7C15;
    h = mix(h, p.white_pawns.0);
    h = mix(h, p.white_knights.0);
    h = mix(h, p.white_bishops.0);
    h = mix(h, p.white_rooks.0);
    h = mix(h, p.white_queens.0);
    h = mix(h, p.white_king.0);
    h = mix(h, p.black_pawns.0);
    h = mix(h, p.black_knights.0);
    h = mix(h, p.black_bishops.0);
    h = mix(h, p.black_rooks.0);
    h = mix(h, p.black_queens.0);
    h = mix(h, p.black_king.0);
    h = mix(h, flags_word(p));
    h
}

} // verus!

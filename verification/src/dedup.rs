//! Dedup keys for kept opening lines.
use vstd::prelude::*;

use shakmaty::Chess;

use crate::chess::{zobrist, zobrist_key};
use crate::cli::DedupMode;
use crate::text::views;

verus! {

pub const FNV_OFFSET_BASIS: u64 = 0xcbf29ce484222325;

pub const FNV_PRIME: u64 = 0x100000001b3;

/// One FNV-1a step: xor in the byte, then multiply by the prime, wrapping.
pub open spec fn fnv_step(h: u64, b: u8) -> u64 {
    (h ^ (b as u64)).wrapping_mul(FNV_PRIME)
}

/// FNV-1a state after feeding `bytes` to state `h`.
pub open spec fn fnv_bytes(h: u64, bytes: Seq<u8>) -> u64
    decreases bytes.len(),
{
    if bytes.len() == 0 {
        h
    } else {
        fnv_step(fnv_bytes(h, bytes.drop_last()), bytes.last())
    }
}

/// The bytes that hashing a string feeds to a hasher: the string's bytes,
/// then the terminator byte 0xFF (what `Hasher::write_str` writes).
pub open spec fn str_stream(s: Seq<u8>) -> Seq<u8> {
    s.push(0xFF)
}

/// The bytes fed to the hasher for a whole move list, move by move.
pub open spec fn moves_stream(sans: Seq<Seq<u8>>) -> Seq<u8>
    decreases sans.len(),
{
    if sans.len() == 0 {
        seq![]
    } else {
        moves_stream(sans.drop_last()) + str_stream(sans.last())
    }
}

/// The `Moves` dedup key of a move list.
pub open spec fn moves_key(sans: Seq<Seq<u8>>) -> u64 {
    fnv_bytes(FNV_OFFSET_BASIS, moves_stream(sans))
}

/// The dedup key of a kept line: the Zobrist hash of its final position in
/// `Position` mode, the hash of its move texts in `Moves` mode.
pub open spec fn game_key(mode: DedupMode, final_pos: Chess, sans: Seq<Seq<u8>>) -> u64 {
    match mode {
        DedupMode::Position => zobrist(final_pos),
        DedupMode::Moves => moves_key(sans),
    }
}

/// The `Moves` key of a line is built move by move from the FNV-1a offset
/// basis: no move gives the empty line's key, and each further move feeds
/// its text and the byte 0xFF to the key of the moves before it. So every
/// move of the line, the last one included, goes into the key; the final
/// position plays no part.
pub proof fn lemma_moves_key_streams(p: Chess, q: Chess, sans: Seq<Seq<u8>>, san: Seq<u8>)
    ensures
        game_key(DedupMode::Moves, p, Seq::<Seq<u8>>::empty()) == 0xcbf29ce484222325u64,
        game_key(DedupMode::Moves, p, sans.push(san)) == fnv_bytes(
            game_key(DedupMode::Moves, p, sans),
            san + seq![0xFFu8],
        ),
        game_key(DedupMode::Moves, p, sans) == game_key(DedupMode::Moves, q, sans),
{
    lemma_moves_key_extends(sans, san);
    assert(str_stream(san) =~= san + seq![0xFFu8]);
    assert(moves_stream(Seq::<Seq<u8>>::empty()) =~= Seq::<u8>::empty());
}

/// FNV-1a: fast and deterministic across runs, so keys are stable.
pub struct Fnv1a(pub u64);

impl Fnv1a {
    pub fn new() -> (r: Fnv1a)
        ensures
            r.0 == FNV_OFFSET_BASIS,
    {
        Fnv1a(0xcbf29ce484222325)
    }

    /// Feeds bytes to the hash.
    pub fn write(&mut self, bytes: &[u8])
        ensures
            final(self).0 == fnv_bytes(old(self).0, bytes@),
    {
        let mut i: usize = 0;
        while i < bytes.len()
            invariant
                0 <= i <= bytes@.len(),
                self.0 == fnv_bytes(old(self).0, bytes@.take(i as int)),
            decreases bytes@.len() - i,
        {
            assert(bytes@.take(i + 1).drop_last() =~= bytes@.take(i as int));
            let b = bytes[i];
            self.0 = self.0 ^ (b as u64);
            self.0 = self.0.wrapping_mul(0x100000001b3);
            i += 1;
        }
        assert(bytes@.take(bytes@.len() as int) =~= bytes@);
    }

    /// Feeds a string to the hash the way `str`'s `Hash` does: its bytes,
    /// then the byte 0xFF.
    pub fn write_str(&mut self, s: &[u8])
        ensures
            final(self).0 == fnv_bytes(old(self).0, str_stream(s@)),
    {
        self.write(s);
        let terminator: Vec<u8> = vec![0xFFu8];
        self.write(terminator.as_slice());
        proof {
            lemma_fnv_concat(old(self).0, s@, seq![0xFFu8]);
            assert(s@ + seq![0xFFu8] =~= str_stream(s@));
            assert(terminator@ =~= seq![0xFFu8]);
        }
    }

    pub fn finish(&self) -> (r: u64)
        ensures
            r == self.0,
    {
        self.0
    }
}

/// Feeding `a` then `b` to the hash is feeding `a + b`: the hash streams.
pub proof fn lemma_fnv_concat(h: u64, a: Seq<u8>, b: Seq<u8>)
    ensures
        fnv_bytes(fnv_bytes(h, a), b) == fnv_bytes(h, a + b),
    decreases b.len(),
{
    if b.len() == 0 {
        assert(a + b =~= a);
    } else {
        lemma_fnv_concat(h, a, b.drop_last());
        assert((a + b).drop_last() =~= a + b.drop_last());
        assert((a + b).last() == b.last());
    }
}

/// The `Moves` key of a move list followed by one more move is the key
/// state of the list, fed that move: keys can be computed move by move.
pub proof fn lemma_moves_key_extends(sans: Seq<Seq<u8>>, san: Seq<u8>)
    ensures
        moves_key(sans.push(san)) == fnv_bytes(moves_key(sans), str_stream(san)),
{
    assert(sans.push(san).drop_last() =~= sans);
    lemma_fnv_concat(FNV_OFFSET_BASIS, moves_stream(sans), str_stream(san));
}

/// The dedup key of a kept line. `Moves` mode hashes the move texts in
/// order with FNV-1a (each text followed by 0xFF), so it is order
/// sensitive; `Position` mode is the Zobrist hash of the final position,
/// which collapses transpositions.
pub fn dedup_key(mode: DedupMode, final_pos: &Chess, sans: &[Vec<u8>]) -> (r: u64)
    ensures
        r == game_key(mode, *final_pos, views(sans@)),
{
    match mode {
        DedupMode::Position => zobrist_key(final_pos),
        DedupMode::Moves => {
            let mut hasher = Fnv1a::new();
            let mut i: usize = 0;
            assert(views(sans@).take(0) =~= Seq::<Seq<u8>>::empty());
            while i < sans.len()
                invariant
                    0 <= i <= sans@.len(),
                    hasher.0 == moves_key(views(sans@).take(i as int)),
                decreases sans@.len() - i,
            {
                proof {
                    lemma_moves_key_extends(views(sans@).take(i as int), sans@[i as int]@);
                    assert(views(sans@).take(i as int).push(sans@[i as int]@) =~= views(
                        sans@,
                    ).take(i + 1));
                }
                hasher.write_str(sans[i].as_slice());
                i += 1;
            }
            assert(views(sans@).take(sans@.len() as int) =~= views(sans@));
            hasher.finish()
        },
    }
}

} // verus!

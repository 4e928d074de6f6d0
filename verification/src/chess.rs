//! The chess rules that this library leans on, from `shakmaty`: the start
//! position, reading a SAN token, matching it to a legal move, playing it,
//! and the Zobrist hash of a position. Positions and moves are carried
//! through the library as opaque values.
use vstd::prelude::*;

use shakmaty::san::San;
use shakmaty::zobrist::{Zobrist64, ZobristHash};
use shakmaty::{Chess, EnPassantMode, Move, Position};

verus! {

#[verifier::external_type_specification]
#[verifier::external_body]
pub struct ExChess(Chess);

#[verifier::external_type_specification]
#[verifier::external_body]
pub struct ExSan(San);

#[verifier::external_type_specification]
#[verifier::external_body]
pub struct ExMove(Move);

/// `Chess::default()`: the standard initial position. Nothing is claimed
/// of the value: positions are opaque here.
#[verifier::external_body]
pub(crate) fn start_position() -> (r: Chess) {
    Chess::default()
}

/// `<Chess as Clone>::clone`: the derived clone, claimed equal to the position cloned.
#[verifier::external_body]
pub(crate) fn clone_position(pos: &Chess) -> (r: Chess)
    ensures
        r == *pos,
{
    pos.clone()
}

/// What `San::from_ascii` gives for a token: a function of its bytes alone.
pub uninterp spec fn san_of(text: Seq<u8>) -> Option<San>;

/// What `San::to_move` gives for a SAN in a position: a function of the two.
pub uninterp spec fn legal_move_of(san: San, pos: Chess) -> Option<Move>;

/// What `Position::play` gives for a move in a position: a function of the two.
pub uninterp spec fn played(pos: Chess, mv: Move) -> Option<Chess>;

/// The Zobrist hash that `zobrist_hash::<Zobrist64>(EnPassantMode::Legal)`
/// computes for a position: a function of the position alone.
pub uninterp spec fn zobrist(pos: Chess) -> u64;

/// The position after reading `text` as SAN, matching it to the legal move
/// of `pos` that it denotes, and playing that move; `None` when the text is
/// not SAN or denotes no legal move.
pub open spec fn san_played(pos: Chess, text: Seq<u8>) -> Option<Chess> {
    match san_of(text) {
        Some(san) => match legal_move_of(san, pos) {
            Some(mv) => played(pos, mv),
            None => None,
        },
        None => None,
    }
}

/// `San::from_ascii`: reads a SAN token, ignoring a `+`/`#` suffix. The
/// result is named, not modelled: the SAN grammar is not written out here.
#[verifier::external_body]
pub(crate) fn parse_san(text: &[u8]) -> (r: Option<San>)
    ensures
        r == san_of(text@),
{
    San::from_ascii(text).ok()
}

/// `San::to_move`: the unique legal move in `pos` that the SAN denotes, if
/// any. The result is named; legality is not modelled here.
#[verifier::external_body]
pub(crate) fn san_to_move(san: &San, pos: &Chess) -> (r: Option<Move>)
    ensures
        r == legal_move_of(*san, *pos),
{
    san.to_move(pos).ok()
}

/// `Position::play` on a copy of `pos`: the position after `mv`, or `None`
/// when `mv` is not legal there. The result is named; legality is not
/// modelled here.
#[verifier::external_body]
pub(crate) fn play_move(pos: &Chess, mv: &Move) -> (r: Option<Chess>)
    ensures
        r == played(*pos, *mv),
{
    pos.clone().play(mv).ok()
}

/// `ZobristHash::zobrist_hash::<Zobrist64>` with `EnPassantMode::Legal`: the
/// 64-bit Zobrist hash of the position (pieces, side to move, castling
/// rights, legal en passant square). The value is named, not modelled.
#[verifier::external_body]
pub(crate) fn zobrist_key(pos: &Chess) -> (r: u64)
    ensures
        r == zobrist(*pos),
{
    let Zobrist64(h) = pos.zobrist_hash::<Zobrist64>(EnPassantMode::Legal);
    h
}

} // verus!

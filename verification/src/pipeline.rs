//! What happens to each finished game of a run, and which files a run reads.
use vstd::prelude::*;

use dashmap::DashSet;

use crate::cli::DedupMode;
use crate::dedup::{dedup_key, game_key};
use crate::filter::RejectReason;
use crate::render::{render_game, rendered};
use crate::stats::Stats;
use crate::text::views;
use crate::visitor::{pair_views, AcceptedGame, GameOutcome};

verus! {

#[verifier::external_type_specification]
#[verifier::external_body]
#[verifier::reject_recursive_types(K)]
#[verifier::reject_recursive_types(S)]
pub struct ExDashSet<K, S>(DashSet<K, S>);

/// `DashSet::insert`: adds `key` to the set shared by all workers and
/// answers whether it was absent. Other workers insert concurrently, so
/// the answer is not stated: it depends on what they did before.
#[verifier::external_body]
pub(crate) fn claim_key(seen: &DashSet<u64>, key: u64) -> (fresh: bool) {
    seen.insert(key)
}

/// Whether `s` ends with `suffix`.
pub open spec fn ends_with(s: Seq<u8>, suffix: Seq<u8>) -> bool {
    suffix.len() <= s.len() && s.subrange(s.len() - suffix.len(), s.len() as int) == suffix
}

/// `s` ends with `suffix` exactly when `s` is some prefix followed by
/// `suffix`: the match is at the very end, not anywhere inside.
pub proof fn lemma_ends_with_is_suffix(s: Seq<u8>, suffix: Seq<u8>)
    ensures
        ends_with(s, suffix) <==> exists|prefix: Seq<u8>| s == #[trigger] (prefix + suffix),
        ends_with(s, suffix) ==> s == s.take(s.len() - suffix.len()) + suffix,
        ends_with(s, suffix) ==> forall|i: int|
            0 <= i < suffix.len() ==> #[trigger] s[s.len() - suffix.len() + i] == suffix[i],
{
    if ends_with(s, suffix) {
        let prefix = s.take(s.len() - suffix.len());
        assert(s =~= prefix + suffix);
        assert forall|i: int| 0 <= i < suffix.len() implies #[trigger] s[s.len() - suffix.len()
            + i] == suffix[i] by {
            assert(s.subrange(s.len() - suffix.len(), s.len() as int)[i] == suffix[i]);
        }
    }
    if exists|prefix: Seq<u8>| s == #[trigger] (prefix + suffix) {
        let prefix = choose|prefix: Seq<u8>| s == #[trigger] (prefix + suffix);
        assert(s.subrange(s.len() - suffix.len(), s.len() as int) =~= suffix);
    }
}

/// A file is read only when its name ends in ".pgn" or ".pgn.zst": its last
/// four bytes are ".pgn", or its last eight are ".pgn.zst".
pub proof fn lemma_pgn_input_names(name: Seq<u8>)
    ensures
        (ends_with(name, ext_pgn()) || ends_with(name, ext_pgn_zst())) ==> {
            ||| (name.len() >= 4 && name.subrange(name.len() - 4, name.len() as int) == seq![
                0x2Eu8,
                0x70,
                0x67,
                0x6E,
            ])
            ||| (name.len() >= 8 && name.subrange(name.len() - 8, name.len() as int) == seq![
                0x2Eu8,
                0x70,
                0x67,
                0x6E,
                0x2E,
                0x7A,
                0x73,
                0x74,
            ])
        },
        (ends_with(name, ext_zst()) && name.len() > 4) ==> name.subrange(
            name.len() - 4,
            name.len() as int,
        ) == seq![0x2Eu8, 0x7A, 0x73, 0x74],
{
    lemma_ends_with_is_suffix(name, ext_pgn());
    lemma_ends_with_is_suffix(name, ext_pgn_zst());
    lemma_ends_with_is_suffix(name, ext_zst());
    if ends_with(name, ext_pgn()) {
        assert(name.subrange(name.len() - 4, name.len() as int) =~= ext_pgn());
    }
    if ends_with(name, ext_pgn_zst()) {
        assert(name.subrange(name.len() - 8, name.len() as int) =~= ext_pgn_zst());
    }
}

fn ends_with_bytes(s: &[u8], suffix: &[u8]) -> (r: bool)
    ensures
        r == ends_with(s@, suffix@),
{
    if suffix.len() > s.len() {
        return false;
    }
    let off = s.len() - suffix.len();
    let mut i: usize = 0;
    while i < suffix.len()
        invariant
            off + suffix@.len() == s@.len(),
            s@.len() <= usize::MAX,
            0 <= i <= suffix@.len(),
            forall|k: int| 0 <= k < i ==> s@[off + k] == suffix@[k],
        decreases suffix@.len() - i,
    {
        if s[off + i] != suffix[i] {
            assert(s@.subrange(off as int, s@.len() as int)[i as int] != suffix@[i as int]);
            return false;
        }
        i += 1;
    }
    assert(s@.subrange(off as int, s@.len() as int) =~= suffix@);
    true
}

/// ".zst", in bytes.
pub open spec fn ext_zst() -> Seq<u8> {
    seq![0x2Eu8, 0x7A, 0x73, 0x74]
}

/// ".pgn", in bytes.
pub open spec fn ext_pgn() -> Seq<u8> {
    seq![0x2Eu8, 0x70, 0x67, 0x6E]
}

/// ".pgn.zst", in bytes.
pub open spec fn ext_pgn_zst() -> Seq<u8> {
    seq![0x2Eu8, 0x70, 0x67, 0x6E, 0x2E, 0x7A, 0x73, 0x74]
}

/// Whether a file name has the extension `zst`: it ends with ".zst" and
/// something comes before that dot (a name like ".zst" has no extension).
pub fn is_zst(file_name: &[u8]) -> (r: bool)
    ensures
        r == (ends_with(file_name@, ext_zst()) && file_name@.len() > 4),
{
    let zst: Vec<u8> = vec![0x2Eu8, 0x7A, 0x73, 0x74];
    assert(zst@ =~= ext_zst());
    file_name.len() > 4 && ends_with_bytes(file_name, zst.as_slice())
}

/// Whether a file found under an input directory is read: its name ends
/// with ".pgn" or ".pgn.zst".
pub fn is_pgn_input(file_name: &[u8]) -> (r: bool)
    ensures
        r == (ends_with(file_name@, ext_pgn()) || ends_with(file_name@, ext_pgn_zst())),
{
    let pgn: Vec<u8> = vec![0x2Eu8, 0x70, 0x67, 0x6E];
    let pgn_zst: Vec<u8> = vec![0x2Eu8, 0x70, 0x67, 0x6E, 0x2E, 0x7A, 0x73, 0x74];
    assert(pgn@ =~= ext_pgn());
    assert(pgn_zst@ =~= ext_pgn_zst());
    ends_with_bytes(file_name, pgn.as_slice()) || ends_with_bytes(file_name, pgn_zst.as_slice())
}

/// Settles a kept game once its dedup key has been claimed or found taken:
/// a fresh game is rendered and counted as written, a repeated one is
/// counted as a duplicate and dropped.
pub fn settle_game(stats: &mut Stats, game: &AcceptedGame, fresh: bool) -> (r: Option<Vec<u8>>)
    ensures
        fresh ==> {
            &&& r matches Some(text)
            &&& text@ == rendered(pair_views(game.tags@), views(game.sans@))
            &&& *final(stats) == old(stats).after_written()
        },
        !fresh ==> {
            &&& r is None
            &&& *final(stats) == old(stats).after_reject(RejectReason::Duplicate)
        },
{
    if fresh {
        let text = render_game(game);
        stats.record_written();
        Some(text)
    } else {
        stats.record_reject(RejectReason::Duplicate);
        None
    }
}

/// Handles one finished game: a rejected game is counted under its reason;
/// a kept game gets its dedup key, claims it in the shared set, and is
/// then settled (written if the key was fresh, a duplicate otherwise).
/// Returns the PGN text to write, if any, and the key that was claimed.
pub fn process_outcome(
    stats: &mut Stats,
    outcome: GameOutcome,
    mode: DedupMode,
    seen: &DashSet<u64>,
) -> (r: (Option<Vec<u8>>, Option<u64>))
    ensures
        match outcome {
            GameOutcome::Rejected(reason) => {
                &&& r.0 is None
                &&& r.1 is None
                &&& *final(stats) == old(stats).after_reject(reason)
            },
            GameOutcome::Accepted(game) => {
                &&& r.1 == Some(game_key(mode, game.final_pos, views(game.sans@)))
                &&& {
                    ||| {
                        &&& r.0 matches Some(text)
                        &&& text@ == rendered(pair_views(game.tags@), views(game.sans@))
                        &&& *final(stats) == old(stats).after_written()
                    }
                    ||| {
                        &&& r.0 is None
                        &&& *final(stats) == old(stats).after_reject(RejectReason::Duplicate)
                    }
                }
            },
        },
{
    match outcome {
        GameOutcome::Rejected(reason) => {
            stats.record_reject(reason);
            (None, None)
        },
        GameOutcome::Accepted(game) => {
            let key = dedup_key(mode, &game.final_pos, game.sans.as_slice());
            let fresh = claim_key(seen, key);
            (settle_game(stats, &game, fresh), Some(key))
        },
    }
}

} // verus!

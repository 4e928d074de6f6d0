//! Run settings: the dedup strategy, the command-line arguments as plain
//! values, their defaults, and the built-in output roster.
use vstd::prelude::*;

use std::path::PathBuf;

use crate::tags::{
    tag_black, tag_black_bytes, tag_black_elo, tag_black_elo_bytes, tag_date, tag_date_bytes, tag_eco,
    tag_eco_bytes, tag_event, tag_event_bytes, tag_result, tag_result_bytes, tag_round,
    tag_round_bytes, tag_site, tag_site_bytes, tag_white, tag_white_bytes, tag_white_elo,
    tag_white_elo_bytes,
};

verus! {

#[verifier::external_type_specification]
#[verifier::external_body]
pub struct ExPathBuf(PathBuf);

/// Deduplication strategy.
#[derive(Clone, Copy, Debug, PartialEq, Eq, Structural)]
pub enum DedupMode {
    /// Zobrist hash of the position after `max_ply` (or the end of the
    /// game, if shorter): transpositions collapse into one game.
    Position,
    /// Hash of the literal move sequence: move-order sensitive, so
    /// `1.Nf3 d5 2.d4` and `1.d4 d5 2.Nf3` stay apart.
    Moves,
}

/// Settings of one run.
pub struct Args {
    /// Input files or directories (searched recursively for *.pgn / *.pgn.zst).
    pub inputs: Vec<PathBuf>,
    /// Output path. Written as PGN, zstd-compressed unless `no_compress`.
    pub output: PathBuf,
    /// Minimum Elo required for BOTH players.
    pub min_elo: i32,
    /// Keep only the first N ply (half-moves).
    pub max_ply: usize,
    /// Discard games shorter than this many ply once truncated.
    pub min_ply: usize,
    /// Deduplication strategy.
    pub dedup_mode: DedupMode,
    /// Keep legality-checking moves past `max_ply`.
    pub validate_full_game: bool,
    /// Tag-order file, one tag per line; the built-in roster when absent.
    pub roster: Option<PathBuf>,
    /// Number of worker threads; the number of logical CPUs when absent.
    pub jobs: Option<usize>,
    /// Write plain PGN instead of zstd.
    pub no_compress: bool,
    /// zstd compression level.
    pub zstd_level: i32,
    /// Progress is reported whenever the number of games seen is a
    /// multiple of this (0: never).
    pub report_interval: u64,
}

pub const DEFAULT_MIN_ELO: i32 = 2400;

pub const DEFAULT_MAX_PLY: usize = 24;

pub const DEFAULT_MIN_PLY: usize = 1;

pub const DEFAULT_ZSTD_LEVEL: i32 = 19;

pub const DEFAULT_REPORT_INTERVAL: u64 = 500_000;

/// Worker threads to start when none were asked for and the number of
/// logical CPUs is unknown.
pub const FALLBACK_JOBS: usize = 4;

/// The number of worker threads: the one asked for, else the number of
/// logical CPUs when it is known, else `FALLBACK_JOBS`.
pub fn worker_count(jobs: Option<usize>, available: Option<usize>) -> (r: usize)
    ensures
        r == match jobs {
            Some(j) => j,
            None => match available {
                Some(a) => a,
                None => FALLBACK_JOBS,
            },
        },
{
    match jobs {
        Some(j) => j,
        None => match available {
            Some(a) => a,
            None => FALLBACK_JOBS,
        },
    }
}

/// The built-in output roster, in output order.
pub open spec fn spec_default_roster() -> Seq<Seq<u8>> {
    seq![
        tag_event(),
        tag_site(),
        tag_date(),
        tag_round(),
        tag_white(),
        tag_black(),
        tag_white_elo(),
        tag_black_elo(),
        tag_result(),
        tag_eco(),
    ]
}

/// The built-in output roster: Event, Site, Date, Round, White, Black,
/// WhiteElo, BlackElo, Result, ECO.
pub fn default_roster() -> (r: Vec<Vec<u8>>)
    ensures
        crate::text::views(r@) == spec_default_roster(),
{
    let mut r: Vec<Vec<u8>> = Vec::new();
    r.push(tag_event_bytes());
    r.push(tag_site_bytes());
    r.push(tag_date_bytes());
    r.push(tag_round_bytes());
    r.push(tag_white_bytes());
    r.push(tag_black_bytes());
    r.push(tag_white_elo_bytes());
    r.push(tag_black_elo_bytes());
    r.push(tag_result_bytes());
    r.push(tag_eco_bytes());
    assert(crate::text::views(r@) =~= spec_default_roster());
    r
}

} // verus!

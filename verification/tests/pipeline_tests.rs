use std::sync::Arc;

use dashmap::DashSet;
use twicbook_builder::cli::{worker_count, DedupMode};
use twicbook_builder::dedup::dedup_key;
use twicbook_builder::filter::RejectReason;
use twicbook_builder::pipeline::{is_pgn_input, is_zst, process_outcome, settle_game};
use twicbook_builder::roster::Roster;
use twicbook_builder::stats::Stats;
use twicbook_builder::visitor::{Config, GameOutcome, GameVisitor};

fn accepted(sans: &[&str]) -> GameOutcome {
    let cfg = Arc::new(Config {
        roster: Arc::new(Roster::load(Some(b"Result\n")).unwrap()),
        min_elo: 2400,
        max_ply: 24,
        min_ply: 1,
        validate_full_game: false,
    });
    let mut v = GameVisitor::new(cfg);
    v.begin_game();
    v.header(b"WhiteElo", b"2500");
    v.header(b"BlackElo", b"2500");
    v.header(b"Result", b"1-0");
    assert!(!v.end_headers());
    for s in sans {
        v.san(s.as_bytes());
    }
    v.end_game()
}

#[test]
fn zst_extension() {
    assert!(is_zst(b"games.pgn.zst"));
    assert!(is_zst(b"a.zst"));
    assert!(is_zst(b"..zst"));
    assert!(!is_zst(b".zst"));
    assert!(!is_zst(b"games.pgn"));
    assert!(!is_zst(b"zst"));
    assert!(!is_zst(b"games.ZST"));
}

#[test]
fn pgn_inputs() {
    assert!(is_pgn_input(b"twic1500.pgn"));
    assert!(is_pgn_input(b"lichess.pgn.zst"));
    assert!(!is_pgn_input(b"notes.txt"));
    assert!(!is_pgn_input(b"archive.zst"));
    assert!(!is_pgn_input(b"games.PGN"));
}

#[test]
fn worker_count_defaults() {
    assert_eq!(worker_count(Some(3), Some(16)), 3);
    assert_eq!(worker_count(None, Some(16)), 16);
    assert_eq!(worker_count(None, None), 4);
}

#[test]
fn duplicates_are_written_once() {
    let seen = DashSet::new();
    let mut stats = Stats::new();
    let (first, key) = process_outcome(&mut stats, accepted(&["e4", "e5"]), DedupMode::Moves, &seen);
    assert_eq!(
        String::from_utf8(first.unwrap()).unwrap(),
        "[Result \"1-0\"]\n\n1. e4 e5 1-0\n\n"
    );
    let sans = vec![b"e4".to_vec(), b"e5".to_vec()];
    assert_eq!(key, Some(dedup_key(DedupMode::Moves, &shakmaty::Chess::default(), &sans)));
    assert!(seen.contains(&key.unwrap()));
    let (again, key2) = process_outcome(&mut stats, accepted(&["e4", "e5"]), DedupMode::Moves, &seen);
    assert!(again.is_none());
    assert_eq!(key2, key);
    let (other, key3) = process_outcome(&mut stats, accepted(&["e4", "c5"]), DedupMode::Position, &seen);
    assert!(other.is_some());
    assert!(seen.contains(&key3.unwrap()));
    assert_eq!(stats.seen, 3);
    assert_eq!(stats.written, 2);
    assert_eq!(stats.duplicate, 1);
}

#[test]
fn rejected_outcomes_are_counted() {
    let seen = DashSet::new();
    let mut stats = Stats::new();
    let (r, key) = process_outcome(
        &mut stats,
        GameOutcome::Rejected(RejectReason::TooShort),
        DedupMode::Position,
        &seen,
    );
    assert!(r.is_none());
    assert!(key.is_none());
    assert_eq!(stats.too_short, 1);
    assert_eq!(stats.seen, 1);
    assert!(seen.is_empty());
}

#[test]
fn settle_game_by_freshness() {
    let mut stats = Stats::new();
    let g = match accepted(&["d4"]) {
        GameOutcome::Accepted(g) => g,
        GameOutcome::Rejected(r) => panic!("rejected: {r:?}"),
    };
    assert!(settle_game(&mut stats, &g, true).is_some());
    assert!(settle_game(&mut stats, &g, false).is_none());
    assert_eq!((stats.written, stats.duplicate, stats.seen), (1, 1, 2));
}

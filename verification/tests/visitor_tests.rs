use shakmaty::Position;
use std::sync::Arc;

use pgn_reader::{BufferedReader, RawHeader, SanPlus, Skip, Visitor};
use twicbook_builder::filter::RejectReason;
use twicbook_builder::roster::Roster;
use twicbook_builder::visitor::{Config, GameOutcome, GameVisitor};

fn config(max_ply: usize, min_ply: usize, validate_full_game: bool) -> Arc<Config> {
    Arc::new(Config {
        roster: Arc::new(Roster::load(None).unwrap()),
        min_elo: 2400,
        max_ply,
        min_ply,
        validate_full_game,
    })
}

/// Feeds a game to the visitor the way the reader does, skipping the moves
/// when `end_headers` asks for it.
fn run_game(v: &mut GameVisitor, headers: &[(&str, &str)], sans: &[&str]) -> (bool, GameOutcome) {
    v.begin_game();
    for (k, val) in headers {
        v.header(k.as_bytes(), val.as_bytes());
    }
    let skip = v.end_headers();
    if !skip {
        for s in sans {
            v.san(s.as_bytes());
        }
    }
    (skip, v.end_game())
}

fn rated(white: &'static str, black: &'static str) -> Vec<(&'static str, &'static str)> {
    vec![
        ("Event", "Test"),
        ("White", "A"),
        ("Black", "B"),
        ("Result", "1-0"),
        ("WhiteElo", white),
        ("BlackElo", black),
        ("Annotator", "ignored"),
    ]
}

fn text(v: &[u8]) -> String {
    String::from_utf8(v.to_vec()).unwrap()
}

#[test]
fn accepted_game_keeps_roster_tags_in_order() {
    let mut v = GameVisitor::new(config(24, 1, false));
    let h = rated("2500", "2450");
    let (skip, out) = run_game(&mut v, &h, &["e4", "e5", "Nf3", "Nc6"]);
    assert!(!skip);
    match out {
        GameOutcome::Accepted(g) => {
            let tags: Vec<(String, String)> = g.tags.iter().map(|(t, v)| (text(t), text(v))).collect();
            assert_eq!(
                tags,
                [
                    ("Event", "Test"),
                    ("White", "A"),
                    ("Black", "B"),
                    ("WhiteElo", "2500"),
                    ("BlackElo", "2450"),
                    ("Result", "1-0"),
                ]
                .iter()
                .map(|(a, b)| (a.to_string(), b.to_string()))
                .collect::<Vec<_>>()
            );
            assert_eq!(g.sans.iter().map(|s| text(s)).collect::<Vec<_>>(), ["e4", "e5", "Nf3", "Nc6"]);
        },
        GameOutcome::Rejected(r) => panic!("rejected: {r:?}"),
    }
}

#[test]
fn missing_elo_is_rejected_and_skipped() {
    let mut v = GameVisitor::new(config(24, 1, false));
    let (skip, out) = run_game(&mut v, &[("White", "Lasker"), ("BlackElo", "2700")], &["e4"]);
    assert!(skip);
    assert!(matches!(out, GameOutcome::Rejected(RejectReason::MissingElo)));
    let h = rated("?", "2500");
    let (skip, out) = run_game(&mut v, &h, &["e4"]);
    assert!(skip);
    assert!(matches!(out, GameOutcome::Rejected(RejectReason::MissingElo)));
}

#[test]
fn low_elo_is_rejected() {
    let mut v = GameVisitor::new(config(24, 1, false));
    let h = rated("2500", "2399");
    let (skip, out) = run_game(&mut v, &h, &["e4"]);
    assert!(skip);
    assert!(matches!(out, GameOutcome::Rejected(RejectReason::LowElo)));
}

#[test]
fn variant_and_setup_are_rejected_first() {
    let mut v = GameVisitor::new(config(24, 1, false));
    let mut h = rated("2500", "2500");
    h.push(("Variant", "Chess960"));
    let (skip, out) = run_game(&mut v, &h, &["e4"]);
    assert!(skip);
    assert!(matches!(out, GameOutcome::Rejected(RejectReason::NonStandardVariant)));

    let mut h = rated("?", "?");
    h.push(("Variant", "Standard"));
    h.push(("SetUp", "1"));
    let (skip, out) = run_game(&mut v, &h, &["e4"]);
    assert!(skip);
    assert!(matches!(out, GameOutcome::Rejected(RejectReason::NonStandardStart)));
}

#[test]
fn illegal_move_is_rejected() {
    let mut v = GameVisitor::new(config(24, 1, false));
    let h = rated("2500", "2500");
    let (_, out) = run_game(&mut v, &h, &["e4", "e5", "Ke3"]);
    assert!(matches!(out, GameOutcome::Rejected(RejectReason::IllegalMove)));
}

#[test]
fn games_are_truncated_to_max_ply() {
    let mut v = GameVisitor::new(config(3, 1, false));
    let h = rated("2500", "2500");
    // Past max_ply nothing is checked, not even legality.
    let (_, out) = run_game(&mut v, &h, &["d4", "d5", "c4", "Qxh7", "Ke8"]);
    match out {
        GameOutcome::Accepted(g) => {
            assert_eq!(g.sans.iter().map(|s| text(s)).collect::<Vec<_>>(), ["d4", "d5", "c4"]);
        },
        GameOutcome::Rejected(r) => panic!("rejected: {r:?}"),
    }
    assert_eq!(v.ply(), 5);
}

#[test]
fn full_validation_checks_moves_past_max_ply() {
    let mut v = GameVisitor::new(config(3, 1, true));
    let h = rated("2500", "2500");
    let (_, out) = run_game(&mut v, &h, &["d4", "d5", "c4", "Qxh7"]);
    assert!(matches!(out, GameOutcome::Rejected(RejectReason::IllegalMove)));
}

#[test]
fn short_games_are_rejected() {
    let mut v = GameVisitor::new(config(24, 4, false));
    let h = rated("2500", "2500");
    let (_, out) = run_game(&mut v, &h, &["e4", "e5"]);
    assert!(matches!(out, GameOutcome::Rejected(RejectReason::TooShort)));
    let mut v = GameVisitor::new(config(24, 0, false));
    let (_, out) = run_game(&mut v, &h, &[]);
    assert!(matches!(out, GameOutcome::Rejected(RejectReason::TooShort)));
}

#[test]
fn ply_count_mismatch_below_max_ply() {
    let mut v = GameVisitor::new(config(24, 1, false));
    let mut h = rated("2500", "2500");
    h.push(("PlyCount", "3"));
    let (_, out) = run_game(&mut v, &h, &["e4", "e5"]);
    assert!(matches!(out, GameOutcome::Rejected(RejectReason::PlyCountMismatch)));

    let mut h = rated("2500", "2500");
    h.push(("PlyCount", " 2 "));
    let (_, out) = run_game(&mut v, &h, &["e4", "e5"]);
    assert!(matches!(out, GameOutcome::Accepted(_)));

    // At or past max_ply the declared count is not checked.
    let mut v = GameVisitor::new(config(2, 1, false));
    let mut h = rated("2500", "2500");
    h.push(("PlyCount", "80"));
    let (_, out) = run_game(&mut v, &h, &["e4", "e5"]);
    assert!(matches!(out, GameOutcome::Accepted(_)));
}

#[test]
fn later_header_replaces_earlier_one() {
    let mut v = GameVisitor::new(config(24, 1, false));
    let mut h = rated("1000", "2500");
    h.push(("WhiteElo", "2600"));
    let (_, out) = run_game(&mut v, &h, &["e4"]);
    match out {
        GameOutcome::Accepted(g) => {
            let elo = g.tags.iter().find(|(t, _)| t == b"WhiteElo").unwrap();
            assert_eq!(text(&elo.1), "2600");
        },
        GameOutcome::Rejected(r) => panic!("rejected: {r:?}"),
    }
}

#[test]
fn escaped_header_values_are_decoded() {
    let mut v = GameVisitor::new(config(24, 1, false));
    let mut h = rated("2500", "2500");
    h.push(("Site", "The \\\"Club\\\""));
    let (_, out) = run_game(&mut v, &h, &["e4"]);
    match out {
        GameOutcome::Accepted(g) => {
            let site = g.tags.iter().find(|(t, _)| t == b"Site").unwrap();
            assert_eq!(text(&site.1), "The \"Club\"");
        },
        GameOutcome::Rejected(r) => panic!("rejected: {r:?}"),
    }
}

#[test]
fn invalid_utf8_tag_values_are_replaced() {
    let mut v = GameVisitor::new(config(24, 1, false));
    v.begin_game();
    for (k, val) in rated("2500", "2500") {
        v.header(k.as_bytes(), val.as_bytes());
    }
    v.header(b"Site", b"Z\xffrich");
    assert!(!v.end_headers());
    v.san(b"e4");
    match v.end_game() {
        GameOutcome::Accepted(g) => {
            let site = g.tags.iter().find(|(t, _)| t == b"Site").unwrap();
            assert_eq!(text(&site.1), "Z\u{fffd}rich");
        },
        GameOutcome::Rejected(r) => panic!("rejected: {r:?}"),
    }
}

#[test]
fn variations_are_skipped() {
    let v = GameVisitor::new(config(24, 1, false));
    assert!(v.begin_variation());
}

/// Drives the library's game state from `pgn-reader`, as the program does.
struct Adapter(GameVisitor);

impl Visitor for Adapter {
    type Result = GameOutcome;

    fn begin_game(&mut self) {
        self.0.begin_game();
    }
    fn header(&mut self, key: &[u8], value: RawHeader<'_>) {
        self.0.header(key, value.as_bytes());
    }
    fn end_headers(&mut self) -> Skip {
        Skip(self.0.end_headers())
    }
    fn san(&mut self, san_plus: SanPlus) {
        self.0.san(san_plus.to_string().as_bytes());
    }
    fn begin_variation(&mut self) -> Skip {
        Skip(self.0.begin_variation())
    }
    fn end_game(&mut self) -> GameOutcome {
        self.0.end_game()
    }
}

#[test]
fn reads_a_pgn_stream() {
    let pgn = b"[Event \"A\"]\n[WhiteElo \"2500\"]\n[BlackElo \"2500\"]\n[Result \"1-0\"]\n\n\
1. e4 (1. d4 d5) e5 2. Nf3 {comment} Nc6 1-0\n\n\
[Event \"B\"]\n[WhiteElo \"2000\"]\n[BlackElo \"2500\"]\n\n1. d4 *\n";
    let mut reader = BufferedReader::new_cursor(&pgn[..]);
    let mut a = Adapter(GameVisitor::new(config(24, 1, false)));
    match reader.read_game(&mut a).unwrap().unwrap() {
        GameOutcome::Accepted(g) => {
            assert_eq!(g.sans.iter().map(|s| text(s)).collect::<Vec<_>>(), ["e4", "e5", "Nf3", "Nc6"]);
        },
        GameOutcome::Rejected(r) => panic!("rejected: {r:?}"),
    }
    assert!(matches!(
        reader.read_game(&mut a).unwrap().unwrap(),
        GameOutcome::Rejected(RejectReason::LowElo)
    ));
    assert!(reader.read_game(&mut a).unwrap().is_none());
}

#[test]
fn min_ply_counts_kept_moves() {
    // Truncated to 2 kept moves, the game is shorter than min_ply 3.
    let mut v = GameVisitor::new(config(2, 3, false));
    let h = rated("2500", "2500");
    let (_, out) = run_game(&mut v, &h, &["e4", "e5", "Nf3", "Nc6"]);
    assert!(matches!(out, GameOutcome::Rejected(RejectReason::TooShort)));
}

#[test]
fn full_validation_extends_ply_count_check() {
    let mut h = rated("2500", "2500");
    h.push(("PlyCount", "5"));
    let mut v = GameVisitor::new(config(2, 1, true));
    let (_, out) = run_game(&mut v, &h, &["e4", "e5", "Nf3", "Nc6"]);
    assert!(matches!(out, GameOutcome::Rejected(RejectReason::PlyCountMismatch)));
    let mut h = rated("2500", "2500");
    h.push(("PlyCount", "4"));
    let (_, out) = run_game(&mut v, &h, &["e4", "e5", "Nf3", "Nc6"]);
    assert!(matches!(out, GameOutcome::Accepted(_)));
}

#[test]
fn record_move_takes_the_given_outcome() {
    let mut v = GameVisitor::new(config(24, 1, false));
    v.begin_game();
    for (k, val) in rated("2500", "2500") {
        v.header(k.as_bytes(), val.as_bytes());
    }
    assert!(!v.end_headers());
    v.record_move(b"e4", Some(shakmaty::Chess::default()));
    assert_eq!(v.ply(), 1);
    v.record_move(b"e5", None);
    assert_eq!(v.ply(), 1);
    // Once illegal, later moves change nothing.
    v.record_move(b"Nf3", Some(shakmaty::Chess::default()));
    assert_eq!(v.ply(), 1);
    assert!(matches!(v.end_game(), GameOutcome::Rejected(RejectReason::IllegalMove)));
}

fn position_after(line: &[&str]) -> shakmaty::Chess {
    let mut pos = shakmaty::Chess::default();
    for s in line {
        let m = s.parse::<shakmaty::san::San>().unwrap().to_move(&pos).unwrap();
        pos = pos.play(&m).unwrap();
    }
    pos
}

fn zobrist_of(pos: &shakmaty::Chess) -> u64 {
    twicbook_builder::dedup::dedup_key(twicbook_builder::cli::DedupMode::Position, pos, &[])
}

#[test]
fn final_position_is_the_truncation_point() {
    for validate in [false, true] {
        let mut v = GameVisitor::new(config(2, 1, validate));
        let h = rated("2500", "2500");
        let (_, out) = run_game(&mut v, &h, &["e4", "e5", "Nf3"]);
        match out {
            GameOutcome::Accepted(g) => {
                assert_eq!(zobrist_of(&g.final_pos), zobrist_of(&position_after(&["e4", "e5"])));
            },
            GameOutcome::Rejected(r) => panic!("rejected: {r:?}"),
        }
    }
}

#[test]
fn begin_game_resets_the_position() {
    let mut v = GameVisitor::new(config(24, 1, false));
    let h = rated("2500", "2500");
    let (_, first) = run_game(&mut v, &h, &["e4", "e5"]);
    assert!(matches!(first, GameOutcome::Accepted(_)));
    // Had the position carried over, e4 would be illegal for white here.
    let (_, second) = run_game(&mut v, &h, &["e4"]);
    match second {
        GameOutcome::Accepted(g) => {
            assert_eq!(zobrist_of(&g.final_pos), zobrist_of(&position_after(&["e4"])));
        },
        GameOutcome::Rejected(r) => panic!("rejected: {r:?}"),
    }
}

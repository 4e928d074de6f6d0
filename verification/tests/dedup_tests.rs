use std::hash::{Hash, Hasher};

use shakmaty::san::San;
use shakmaty::{Chess, Position};
use twicbook_builder::cli::DedupMode;
use twicbook_builder::dedup::{dedup_key, Fnv1a};

/// FNV-1a through std's `Hasher`, as a reference for the hashing of strings.
struct StdFnv(u64);

impl Hasher for StdFnv {
    fn write(&mut self, bytes: &[u8]) {
        for &b in bytes {
            self.0 ^= b as u64;
            self.0 = self.0.wrapping_mul(0x100000001b3);
        }
    }
    fn finish(&self) -> u64 {
        self.0
    }
}

fn play(line: &[&str]) -> (Chess, Vec<Vec<u8>>) {
    let mut pos = Chess::default();
    for s in line {
        let m = s.parse::<San>().unwrap().to_move(&pos).unwrap();
        pos = pos.play(&m).unwrap();
    }
    (pos, line.iter().map(|s| s.as_bytes().to_vec()).collect())
}

#[test]
fn fnv_known_values() {
    let h = Fnv1a::new();
    assert_eq!(h.finish(), 0xcbf29ce484222325);
    let mut h = Fnv1a::new();
    h.write(b"a");
    assert_eq!(h.finish(), 0xaf63dc4c8601ec8c);
    let mut h = Fnv1a::new();
    h.write(b"foobar");
    assert_eq!(h.finish(), 0x85944171f73967e8);
}

#[test]
fn fnv_streams() {
    let mut a = Fnv1a::new();
    a.write(b"Nf3");
    a.write(b"d5");
    let mut b = Fnv1a::new();
    b.write(b"Nf3d5");
    assert_eq!(a.finish(), b.finish());
}

#[test]
fn moves_key_matches_hashing_the_san_strings() {
    let line = ["e4", "c5", "Nf3", "d6"];
    let (pos, sans) = play(&line);
    let mut reference = StdFnv(0xcbf29ce484222325);
    for s in line {
        s.to_string().hash(&mut reference);
    }
    assert_eq!(dedup_key(DedupMode::Moves, &pos, &sans), reference.finish());
}

#[test]
fn transpositions_collapse_in_position_mode_only() {
    let (p1, s1) = play(&["Nf3", "d5", "d4"]);
    let (p2, s2) = play(&["d4", "d5", "Nf3"]);
    assert_eq!(dedup_key(DedupMode::Position, &p1, &s1), dedup_key(DedupMode::Position, &p2, &s2));
    assert_ne!(dedup_key(DedupMode::Moves, &p1, &s1), dedup_key(DedupMode::Moves, &p2, &s2));
}

#[test]
fn different_positions_differ() {
    let (p1, s1) = play(&["e4"]);
    let (p2, s2) = play(&["d4"]);
    assert_ne!(dedup_key(DedupMode::Position, &p1, &s1), dedup_key(DedupMode::Position, &p2, &s2));
    assert_ne!(dedup_key(DedupMode::Moves, &p1, &s1), dedup_key(DedupMode::Moves, &p2, &s2));
}

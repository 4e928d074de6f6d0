use pgn_reader::RawHeader;
use shakmaty::Chess;
use twicbook_builder::render::{escape, render_game};
use twicbook_builder::visitor::AcceptedGame;

fn game(tags: &[(&str, &str)], sans: &[&str]) -> AcceptedGame {
    AcceptedGame {
        tags: tags
            .iter()
            .map(|(t, v)| (t.as_bytes().to_vec(), v.as_bytes().to_vec()))
            .collect(),
        sans: sans.iter().map(|s| s.as_bytes().to_vec()).collect(),
        final_pos: Chess::default(),
    }
}

/// The layout as the writer is meant to produce it, token by token.
fn expected_text(tags: &[(&str, &str)], sans: &[&str]) -> String {
    let mut out = String::new();
    for (t, v) in tags {
        out.push_str(&format!("[{t} \"{}\"]\n", v.replace('\\', "\\\\").replace('"', "\\\"")));
    }
    out.push('\n');
    let result = tags.iter().find(|(t, _)| *t == "Result").map(|(_, v)| *v).unwrap_or("*");
    let mut col = 0usize;
    for (i, san) in sans.iter().enumerate() {
        let token = if i % 2 == 0 { format!("{}. {}", i / 2 + 1, san) } else { san.to_string() };
        if col > 0 && col + token.len() + 1 > 79 {
            out.push('\n');
            col = 0;
        } else if col > 0 {
            out.push(' ');
            col += 1;
        }
        out.push_str(&token);
        col += token.len();
    }
    if col > 0 {
        out.push(' ');
    }
    out.push_str(result);
    out.push_str("\n\n");
    out
}

#[test]
fn renders_tags_moves_and_result() {
    let g = game(&[("Event", "Test \"Open\""), ("Result", "1-0")], &["e4", "e5", "Nf3"]);
    let text = String::from_utf8(render_game(&g)).unwrap();
    assert_eq!(text, "[Event \"Test \\\"Open\\\"\"]\n[Result \"1-0\"]\n\n1. e4 e5 2. Nf3 1-0\n\n");
}

#[test]
fn missing_result_tag_gives_star() {
    let g = game(&[("White", "A")], &["d4"]);
    let text = String::from_utf8(render_game(&g)).unwrap();
    assert_eq!(text, "[White \"A\"]\n\n1. d4 *\n\n");
}

#[test]
fn no_moves_no_trailing_space() {
    let g = game(&[("Result", "1/2-1/2")], &[]);
    let text = String::from_utf8(render_game(&g)).unwrap();
    assert_eq!(text, "[Result \"1/2-1/2\"]\n\n1/2-1/2\n\n");
}

#[test]
fn long_movetext_wraps_at_79_columns() {
    let sans: Vec<&str> = ["Nf3", "Nf6", "c4", "g6", "Nc3", "Bg7", "d4", "O-O", "Bf4", "d5"]
        .iter()
        .cycle()
        .take(60)
        .copied()
        .collect();
    let tags = [("Result", "0-1")];
    let text = String::from_utf8(render_game(&game(&tags, &sans))).unwrap();
    assert_eq!(text, expected_text(&tags, &sans));
    for line in text.lines() {
        assert!(line.len() <= 79, "{line:?}");
    }
}

#[test]
fn overlong_token_gets_its_own_line() {
    let long = "x".repeat(90);
    let sans = vec!["e4", long.as_str(), "Nf3"];
    let tags = [("Result", "*")];
    let text = String::from_utf8(render_game(&game(&tags, &sans))).unwrap();
    assert_eq!(text, expected_text(&tags, &sans));
    assert!(text.contains(&format!("\n{long}\n")));
}

#[test]
fn escape_quotes_and_backslashes() {
    assert_eq!(escape(b"plain"), b"plain".to_vec());
    assert_eq!(escape(b"a\"b"), b"a\\\"b".to_vec());
    assert_eq!(escape(b"a\\b"), b"a\\\\b".to_vec());
}

#[test]
fn escape_round_trips_through_pgn_reader() {
    for v in ["Kasparov, G.", "\"Deep\" Blue", "back\\slash", "end\\"] {
        let e = escape(v.as_bytes());
        assert_eq!(RawHeader(&e).decode().into_owned(), v.as_bytes(), "{v:?}");
    }
    // A backslash right before a quote does not survive the reader's decoding.
    let e = escape(b"\\\"");
    assert_eq!(RawHeader(&e).decode().into_owned(), b"\"".to_vec());
}

/// Reads an escaped value left to right: a backslash stands for the byte after it.
fn unescape(t: &[u8]) -> Vec<u8> {
    let mut out = Vec::new();
    let mut i = 0;
    while i < t.len() {
        if t[i] == b'\\' && i + 1 < t.len() {
            out.push(t[i + 1]);
            i += 2;
        } else {
            out.push(t[i]);
            i += 1;
        }
    }
    out
}

#[test]
fn escape_round_trips_left_to_right() {
    for v in ["\\\"", "a\\\\b\"", "", "plain", "\"\"\\"] {
        assert_eq!(unescape(&escape(v.as_bytes())), v.as_bytes(), "{v:?}");
    }
}

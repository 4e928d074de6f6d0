//! Writing a kept game back out as PGN text.
use vstd::prelude::*;

use crate::pgn::{decode_header, escapes_next};
use crate::tags::{tag_result, tag_result_bytes};
use crate::text::{append_bytes, bytes_eq, decimal, push_decimal, views};
use crate::visitor::{pair_views, AcceptedGame};

verus! {

/// The widest a movetext line may grow before a token moves to the next line.
pub open spec fn line_width() -> int {
    79
}

/// How a tag value byte is written inside quotes: `"` and `\` get a
/// backslash in front, per the PGN tag-pair escaping rules.
pub open spec fn escape_byte(b: u8) -> Seq<u8> {
    if b == 0x5C {
        seq![0x5Cu8, 0x5C]
    } else if b == 0x22 {
        seq![0x5Cu8, 0x22]
    } else {
        seq![b]
    }
}

/// A tag value with `"` and `\` escaped.
pub open spec fn escaped(s: Seq<u8>) -> Seq<u8>
    decreases s.len(),
{
    if s.len() == 0 {
        seq![]
    } else {
        escape_byte(s[0]) + escaped(s.drop_first())
    }
}

/// `[Tag "escaped value"]` and a line break.
pub open spec fn tag_line(tag: Seq<u8>, value: Seq<u8>) -> Seq<u8> {
    seq![0x5Bu8] + tag + seq![0x20u8, 0x22] + escaped(value) + seq![0x22u8, 0x5D, 0x0A]
}

/// The tag lines of a game, in order.
pub open spec fn tag_section(tags: Seq<(Seq<u8>, Seq<u8>)>) -> Seq<u8>
    decreases tags.len(),
{
    if tags.len() == 0 {
        seq![]
    } else {
        tag_section(tags.drop_last()) + tag_line(tags.last().0, tags.last().1)
    }
}

/// The value of the first `Result` tag, if any.
pub open spec fn first_result(tags: Seq<(Seq<u8>, Seq<u8>)>) -> Option<Seq<u8>>
    decreases tags.len(),
{
    if tags.len() == 0 {
        None
    } else if tags[0].0 == tag_result() {
        Some(tags[0].1)
    } else {
        first_result(tags.drop_first())
    }
}

/// The game termination marker: the `Result` tag's value, else `*`.
pub open spec fn result_text(tags: Seq<(Seq<u8>, Seq<u8>)>) -> Seq<u8> {
    match first_result(tags) {
        Some(v) => v,
        None => seq![0x2Au8],
    }
}

/// The movetext token of the `i`-th ply: white's moves carry their move
/// number, `N. `.
pub open spec fn token(i: int, san: Seq<u8>) -> Seq<u8> {
    if i % 2 == 0 {
        decimal((i / 2 + 1) as nat) + seq![0x2Eu8, 0x20] + san
    } else {
        san
    }
}

/// The movetext of the first `n` moves and the column it ends at. A token
/// goes on a new line when the line already holds something and the token
/// (after a space) would take it past `line_width()` columns; otherwise it
/// follows a space, or starts the line.
pub open spec fn layout(sans: Seq<Seq<u8>>, n: nat) -> (Seq<u8>, int)
    decreases n,
{
    if n == 0 {
        (seq![], 0)
    } else {
        let (out, col) = layout(sans, (n - 1) as nat);
        let t = token(n - 1, sans[n - 1]);
        if col > 0 && col + t.len() + 1 > line_width() {
            (out.push(0x0A) + t, t.len() as int)
        } else if col > 0 {
            (out.push(0x20) + t, col + 1 + t.len())
        } else {
            (out + t, t.len() as int)
        }
    }
}

/// The movetext of a move list, with a space before the result when any
/// move was written.
pub open spec fn movetext(sans: Seq<Seq<u8>>) -> Seq<u8> {
    let (out, col) = layout(sans, sans.len());
    if col > 0 {
        out.push(0x20)
    } else {
        out
    }
}

/// The PGN text of a game: its tag lines, a blank line, the movetext, the
/// result, and a blank line.
pub open spec fn rendered(tags: Seq<(Seq<u8>, Seq<u8>)>, sans: Seq<Seq<u8>>) -> Seq<u8> {
    tag_section(tags).push(0x0A) + movetext(sans) + result_text(tags) + seq![0x0Au8, 0x0A]
}

/// Escapes `"` and `\` per the PGN tag-pair escaping rules.
pub fn escape(s: &[u8]) -> (r: Vec<u8>)
    ensures
        r@ == escaped(s@),
{
    let mut out: Vec<u8> = Vec::new();
    let mut i: usize = 0;
    assert(s@.skip(0) =~= s@);
    while i < s.len()
        invariant
            0 <= i <= s@.len(),
            out@ + escaped(s@.skip(i as int)) == escaped(s@),
        decreases s@.len() - i,
    {
        let b = s[i];
        assert(s@.skip(i as int).drop_first() =~= s@.skip(i + 1));
        let ghost before = out@;
        if b == 0x5C {
            out.push(0x5C);
            out.push(0x5C);
        } else if b == 0x22 {
            out.push(0x5C);
            out.push(0x22);
        } else {
            out.push(b);
        }
        assert(out@ =~= before + escape_byte(b));
        assert(out@ + escaped(s@.skip(i + 1)) =~= before + escaped(s@.skip(i as int)));
        i += 1;
    }
    assert(s@.skip(s@.len() as int) =~= Seq::<u8>::empty());
    assert(out@ + Seq::<u8>::empty() =~= out@);
    out
}

/// The value of the first `Result` tag, if any.
fn find_result(tags: &Vec<(Vec<u8>, Vec<u8>)>) -> (r: Option<&[u8]>)
    ensures
        match r {
            Some(v) => first_result(pair_views(tags@)) == Some(v@),
            None => first_result(pair_views(tags@)) is None,
        },
{
    let key = tag_result_bytes();
    let mut i: usize = 0;
    assert(pair_views(tags@).skip(0) =~= pair_views(tags@));
    while i < tags.len()
        invariant
            0 <= i <= tags@.len(),
            key@ == tag_result(),
            first_result(pair_views(tags@).skip(i as int)) == first_result(pair_views(tags@)),
        decreases tags@.len() - i,
    {
        assert(pair_views(tags@).skip(i as int).drop_first() =~= pair_views(tags@).skip(i + 1));
        assert(pair_views(tags@).skip(i as int)[0] == (tags@[i as int].0@, tags@[i as int].1@));
        if bytes_eq(tags[i].0.as_slice(), key.as_slice()) {
            return Some(tags[i].1.as_slice());
        }
        i += 1;
    }
    None
}

/// Renders one kept game as PGN text (tags, movetext, result), followed
/// by a blank line, ready to be appended to the output stream.
pub fn render_game(game: &AcceptedGame) -> (r: Vec<u8>)
    ensures
        r@ == rendered(pair_views(game.tags@), views(game.sans@)),
{
    let tags = &game.tags;
    let sans = &game.sans;
    let mut out: Vec<u8> = Vec::new();
    let mut i: usize = 0;
    assert(pair_views(tags@).take(0) =~= Seq::<(Seq<u8>, Seq<u8>)>::empty());
    while i < tags.len()
        invariant
            0 <= i <= tags@.len(),
            out@ == tag_section(pair_views(tags@).take(i as int)),
        decreases tags@.len() - i,
    {
        let ghost before = out@;
        assert(pair_views(tags@).take(i + 1).drop_last() =~= pair_views(tags@).take(i as int));
        out.push(0x5B);
        append_bytes(&mut out, tags[i].0.as_slice());
        out.push(0x20);
        out.push(0x22);
        let value = escape(tags[i].1.as_slice());
        append_bytes(&mut out, value.as_slice());
        out.push(0x22);
        out.push(0x5D);
        out.push(0x0A);
        assert(out@ =~= before + tag_line(tags@[i as int].0@, tags@[i as int].1@));
        i += 1;
    }
    assert(pair_views(tags@).take(tags@.len() as int) =~= pair_views(tags@));
    out.push(0x0A);
    let ghost head = out@;
    let mut col: usize = 0;
    let mut k: usize = 0;
    while k < sans.len()
        invariant
            0 <= k <= sans@.len(),
            out@ == head + layout(views(sans@), k as nat).0,
            col as int == layout(views(sans@), k as nat).1,
        decreases sans@.len() - k,
    {
        let ghost before = out@;
        let san = sans[k].as_slice();
        let mut tok: Vec<u8> = Vec::new();
        if k % 2 == 0 {
            push_decimal(&mut tok, (k / 2 + 1) as u64);
            tok.push(0x2E);
            tok.push(0x20);
        }
        append_bytes(&mut tok, san);
        assert(tok@ =~= token(k as int, views(sans@)[k as int]));
        let tlen = tok.len();
        if col > 0 && (tlen >= 79 || col >= 79 - tlen) {
            out.push(0x0A);
            col = 0;
        } else if col > 0 {
            out.push(0x20);
            col += 1;
        }
        append_bytes(&mut out, tok.as_slice());
        col += tlen;
        assert(out@ =~= head + layout(views(sans@), (k + 1) as nat).0);
        k += 1;
    }
    if col > 0 {
        out.push(0x20);
    }
    assert(out@ =~= tag_section(pair_views(tags@)).push(0x0A) + movetext(views(sans@)));
    match find_result(tags) {
        Some(v) => append_bytes(&mut out, v),
        None => out.push(0x2A),
    }
    out.push(0x0A);
    out.push(0x0A);
    assert(out@ =~= rendered(pair_views(tags@), views(sans@)));
    out
}

/// A movetext line runs past `line_width()` columns only when it holds a
/// single token: the column after any number of moves is within the width,
/// or is the length of the last token, which then started its line.
pub proof fn lemma_line_width(sans: Seq<Seq<u8>>, n: nat)
    requires
        n <= sans.len(),
    ensures
        layout(sans, n).1 <= line_width() || (n > 0 && layout(sans, n).1 == token(
            n - 1,
            sans[n - 1],
        ).len()),
{
}

/// The length of the last line of `s`: the bytes after its last line break.
pub open spec fn last_line_len(s: Seq<u8>) -> int
    decreases s.len(),
{
    if s.len() == 0 || s.last() == 0x0A {
        0
    } else {
        last_line_len(s.drop_last()) + 1
    }
}

/// Whether `s` holds a line break.
pub open spec fn has_newline(s: Seq<u8>) -> bool {
    exists|i: int| 0 <= i < s.len() && #[trigger] s[i] == 0x0A
}

proof fn lemma_last_line_append(a: Seq<u8>, t: Seq<u8>)
    requires
        !has_newline(t),
    ensures
        last_line_len(a + t) == last_line_len(a) + t.len(),
    decreases t.len(),
{
    if t.len() == 0 {
        assert(a + t =~= a);
    } else {
        assert(!has_newline(t.drop_last())) by {
            if has_newline(t.drop_last()) {
                let i = choose|i: int| 0 <= i < t.drop_last().len() && #[trigger] t.drop_last()[i] == 0x0A;
                assert(t[i] == 0x0A);
            }
        }
        lemma_last_line_append(a, t.drop_last());
        assert((a + t).drop_last() =~= a + t.drop_last());
        assert(t.last() == t[t.len() - 1]);
        assert((a + t).last() != 0x0A);
    }
}

proof fn lemma_decimal_no_newline(n: nat)
    ensures
        !has_newline(decimal(n)),
    decreases n,
{
    if n >= 10 {
        lemma_decimal_no_newline(n / 10);
        let d = decimal(n / 10);
        assert forall|i: int| 0 <= i < decimal(n).len() implies decimal(n)[i] != 0x0A by {
            if i < d.len() {
                assert(decimal(n)[i] == d[i]);
            }
        }
    }
}

/// The movetext column is the length of its last line, as long as no move
/// text holds a line break.
proof fn lemma_layout_column(sans: Seq<Seq<u8>>, n: nat)
    requires
        n <= sans.len(),
        forall|i: int| 0 <= i < sans.len() ==> !has_newline(#[trigger] sans[i]),
    ensures
        layout(sans, n).1 == last_line_len(layout(sans, n).0),
    decreases n,
{
    if n > 0 {
        lemma_layout_column(sans, (n - 1) as nat);
        let (out, col) = layout(sans, (n - 1) as nat);
        let i = n - 1;
        let t = token(i, sans[i]);
        assert(!has_newline(t)) by {
            assert(!has_newline(sans[i]));
            if i % 2 == 0 {
                lemma_decimal_no_newline((i / 2 + 1) as nat);
                let d = decimal((i / 2 + 1) as nat);
                assert forall|k: int| 0 <= k < t.len() implies t[k] != 0x0A by {
                    if k < d.len() {
                        assert(t[k] == d[k]);
                    } else if k >= d.len() + 2 {
                        assert(t[k] == sans[i][k - d.len() - 2]);
                    }
                }
            }
        }
        if col > 0 && col + t.len() + 1 > line_width() {
            lemma_last_line_append(out.push(0x0A), t);
            assert(last_line_len(out.push(0x0A)) == 0) by {
                assert(out.push(0x0A).last() == 0x0A);
            }
        } else if col > 0 {
            lemma_last_line_append(out.push(0x20), t);
            assert(out.push(0x20).drop_last() =~= out);
        } else {
            lemma_last_line_append(out, t);
        }
    }
}

/// No movetext line is longer than `line_width()` unless it holds a single
/// move token: after any number of moves, the line under way is within the
/// width, or it is exactly the last token, which then started it. Every
/// line is the line under way at some point, so this holds of all lines.
pub proof fn lemma_movetext_lines(sans: Seq<Seq<u8>>, n: nat)
    requires
        n <= sans.len(),
        forall|i: int| 0 <= i < sans.len() ==> !has_newline(#[trigger] sans[i]),
    ensures
        last_line_len(layout(sans, n).0) <= line_width() || (n > 0 && last_line_len(
            layout(sans, n).0,
        ) == token(n - 1, sans[n - 1]).len()),
{
    lemma_layout_column(sans, n);
    lemma_line_width(sans, n);
}

/// Reading an escaped tag value left to right: a backslash and the byte
/// after it stand for that byte.
pub open spec fn unescaped(t: Seq<u8>) -> Seq<u8>
    decreases t.len(),
{
    if t.len() == 0 {
        seq![]
    } else if t[0] == 0x5C && t.len() >= 2 {
        seq![t[1]] + unescaped(t.skip(2))
    } else {
        seq![t[0]] + unescaped(t.drop_first())
    }
}

/// Unescaping a written tag value gives the value back; a value without
/// `"` or `\` is written as it is.
pub proof fn lemma_unescape_escaped(s: Seq<u8>)
    ensures
        unescaped(escaped(s)) == s,
        (forall|i: int| 0 <= i < s.len() ==> #[trigger] s[i] != 0x22 && s[i] != 0x5C) ==> escaped(s)
            == s,
    decreases s.len(),
{
    if s.len() > 0 {
        let rest = s.drop_first();
        lemma_unescape_escaped(rest);
        let e = escaped(rest);
        let b = s[0];
        assert(escaped(s) == escape_byte(b) + e);
        if b == 0x5C || b == 0x22 {
            let whole = seq![0x5Cu8, b] + e;
            assert(whole.skip(2) =~= e);
            assert(escape_byte(b) =~= seq![0x5Cu8, b]);
        } else {
            let whole = seq![b] + e;
            assert(whole.drop_first() =~= e);
            if forall|i: int| 0 <= i < s.len() ==> #[trigger] s[i] != 0x22 && s[i] != 0x5C {
                assert forall|i: int| 0 <= i < rest.len() implies #[trigger] rest[i] != 0x22 && rest[i]
                    != 0x5C by {
                    assert(rest[i] == s[i + 1]);
                }
            }
        }
        assert(seq![b] + rest =~= s);
    }
}

/// Whether `s` has a backslash right before a `\` or a `"`.
pub open spec fn has_escape_clash(s: Seq<u8>) -> bool {
    exists|i: int| #[trigger] escapes_next(s, i)
}

/// Reading a written tag value back with `pgn-reader`'s decoding gives the
/// value again, unless the value has a backslash right before a `\` or a
/// `"` (that backslash is then lost).
pub proof fn lemma_escape_round_trip(s: Seq<u8>)
    requires
        !has_escape_clash(s),
    ensures
        decode_header(escaped(s)) == s,
    decreases s.len(),
{
    if s.len() > 0 {
        let rest = s.drop_first();
        assert(!has_escape_clash(rest)) by {
            if has_escape_clash(rest) {
                let i = choose|i: int| #[trigger] escapes_next(rest, i);
                assert(s[i + 1] == rest[i] && s[i + 2] == rest[i + 1]);
                assert(escapes_next(s, i + 1));
            }
        }
        lemma_escape_round_trip(rest);
        let e = escaped(rest);
        let b = s[0];
        assert(escaped(s) == escape_byte(b) + e);
        if b == 0x5C {
            let whole = seq![0x5Cu8, 0x5C] + e;
            let tail = seq![0x5Cu8] + e;
            assert(whole.drop_first() =~= tail);
            assert(tail.drop_first() =~= e);
            assert(escapes_next(whole, 0));
            assert(decode_header(whole) == decode_header(tail));
            if rest.len() > 0 {
                assert(!escapes_next(s, 0));
                assert(rest[0] == s[1]);
                assert(escaped(rest) == escape_byte(rest[0]) + escaped(rest.drop_first()));
                assert(e[0] == rest[0]);
            } else {
                assert(e =~= Seq::<u8>::empty());
            }
            assert(!escapes_next(tail, 0));
            assert(decode_header(tail) == seq![tail[0]] + decode_header(tail.drop_first()));
            assert(seq![0x5Cu8] + rest =~= s);
        } else if b == 0x22 {
            let whole = seq![0x5Cu8, 0x22] + e;
            let tail = seq![0x22u8] + e;
            assert(whole.drop_first() =~= tail);
            assert(tail.drop_first() =~= e);
            assert(escapes_next(whole, 0));
            assert(decode_header(whole) == decode_header(tail));
            assert(!escapes_next(tail, 0));
            assert(decode_header(tail) == seq![tail[0]] + decode_header(tail.drop_first()));
            assert(seq![0x22u8] + rest =~= s);
        } else {
            let whole = seq![b] + e;
            assert(whole.drop_first() =~= e);
            assert(!escapes_next(whole, 0));
            assert(decode_header(whole) == seq![whole[0]] + decode_header(whole.drop_first()));
            assert(seq![b] + rest =~= s);
        }
    }
}

} // verus!

//! Header-only game filters: Elo tags, variant and start position.
use vstd::prelude::*;
use vstd::slice::slice_subrange;

use crate::text::{
    eq_ignore_ascii_case, eq_ignore_case, lower, parse_i32, parse_i32_bytes, trim, trim_ws,
};

verus! {

/// Reasons a game can be rejected. Header-only reasons are decided before
/// any movetext is parsed; the rest come from the moves or from dedup.
#[derive(Debug, Clone, Copy, PartialEq, Eq, Structural)]
pub enum RejectReason {
    MissingElo,
    LowElo,
    NonStandardVariant,
    NonStandardStart,
    IllegalMove,
    /// The declared `[PlyCount "N"]` disagrees with the number of moves
    /// parsed, for a game whose whole mainline was played (it ended before
    /// `max_ply`, or every move was validated): a malformed move token was
    /// dropped by the tokenizer.
    PlyCountMismatch,
    TooShort,
    Duplicate,
}

/// What `parse_elo` answers: the trimmed text read as an `i32`, kept only
/// when positive. Placeholders (`?`, `-`, `0`, empty) never parse to a
/// positive number and so never count as an Elo.
pub open spec fn spec_parse_elo(raw: Seq<u8>) -> Option<i32> {
    match parse_i32(trim(raw)) {
        Some(v) => if v > 0 {
            Some(v)
        } else {
            None
        },
        None => None,
    }
}

/// Parses a PGN Elo tag value. Unknown or unrated placeholders ("?", "-",
/// "0", empty) give `None`, never an Elo of 0.
pub fn parse_elo(raw: &[u8]) -> (r: Option<i32>)
    ensures
        r == spec_parse_elo(raw@),
        r matches Some(v) ==> v > 0,
{
    let s = trim_ws(raw);
    if s.len() == 0 || (s.len() == 1 && (s[0] == 0x3F || s[0] == 0x2D)) {
        return None;
    }
    match parse_i32_bytes(s) {
        Some(v) => if v <= 0 {
            None
        } else {
            Some(v)
        },
        None => None,
    }
}

/// "standard", in bytes.
pub open spec fn word_standard() -> Seq<u8> {
    seq![0x73u8, 0x74, 0x61, 0x6E, 0x64, 0x61, 0x72, 0x64]
}

/// "normal", in bytes.
pub open spec fn word_normal() -> Seq<u8> {
    seq![0x6Eu8, 0x6F, 0x72, 0x6D, 0x61, 0x6C]
}

/// A `[Variant "..."]` value counts as standard chess when, trimmed, it is
/// empty or reads "standard" or "normal" in any ASCII case.
pub open spec fn spec_is_standard_variant(raw: Seq<u8>) -> bool {
    let t = trim(raw);
    t.len() == 0 || eq_ignore_case(t, word_standard()) || eq_ignore_case(t, word_normal())
}

/// Returns true if a `[Variant "..."]` value counts as standard chess.
pub fn is_standard_variant(raw: &[u8]) -> (r: bool)
    ensures
        r == spec_is_standard_variant(raw@),
{
    let s = trim_ws(raw);
    let standard: Vec<u8> = vec![0x73u8, 0x74, 0x61, 0x6E, 0x64, 0x61, 0x72, 0x64];
    let normal: Vec<u8> = vec![0x6Eu8, 0x6F, 0x72, 0x6D, 0x61, 0x6C];
    assert(standard@ =~= word_standard());
    assert(normal@ =~= word_normal());
    s.len() == 0 || eq_ignore_ascii_case(s, standard.as_slice()) || eq_ignore_ascii_case(
        s,
        normal.as_slice(),
    )
}

/// Whether a byte is an ASCII letter.
pub open spec fn is_ascii_letter(b: u8) -> bool {
    (0x41 <= b && b <= 0x5A) || (0x61 <= b && b <= 0x7A)
}

/// A Variant value is standard exactly when, trimmed, it is empty, or its
/// ASCII-lowercased bytes spell "standard" or "normal".
pub proof fn lemma_standard_variant_words(raw: Seq<u8>)
    ensures
        spec_is_standard_variant(raw) <==> {
            let t = trim(raw);
            ||| t.len() == 0
            ||| t.map_values(|b: u8| lower(b)) == seq![0x73u8, 0x74, 0x61, 0x6E, 0x64, 0x61, 0x72, 0x64]
            ||| t.map_values(|b: u8| lower(b)) == seq![0x6Eu8, 0x6F, 0x72, 0x6D, 0x61, 0x6C]
        },
{
    let t = trim(raw);
    let l = t.map_values(|b: u8| lower(b));
    let st = seq![0x73u8, 0x74, 0x61, 0x6E, 0x64, 0x61, 0x72, 0x64];
    let nm = seq![0x6Eu8, 0x6F, 0x72, 0x6D, 0x61, 0x6C];
    assert(word_standard() == st);
    assert(word_normal() == nm);
    if eq_ignore_case(t, st) {
        assert(l =~= st) by {
            assert forall|i: int| 0 <= i < l.len() implies l[i] == st[i] by {
                assert(lower(t[i]) == lower(st[i]));
            }
        }
    }
    if l == st {
        assert forall|i: int| 0 <= i < t.len() implies lower(t[i]) == lower(st[i]) by {
            assert(l[i] == lower(t[i]));
        }
    }
    if eq_ignore_case(t, nm) {
        assert(l =~= nm) by {
            assert forall|i: int| 0 <= i < l.len() implies l[i] == nm[i] by {
                assert(lower(t[i]) == lower(nm[i]));
            }
        }
    }
    if l == nm {
        assert forall|i: int| 0 <= i < t.len() implies lower(t[i]) == lower(nm[i]) by {
            assert(l[i] == lower(t[i]));
        }
    }
}

/// A Variant value whose trimmed text holds anything but ASCII letters
/// (a digit, a hyphen, an inner space, ...) is never standard.
pub proof fn lemma_standard_variant_is_a_word(raw: Seq<u8>, i: int)
    requires
        0 <= i < trim(raw).len(),
        !is_ascii_letter(trim(raw)[i]),
    ensures
        !spec_is_standard_variant(raw),
{
    let t = trim(raw);
    lemma_standard_variant_words(raw);
    let l = t.map_values(|b: u8| lower(b));
    assert(l[i] == lower(t[i]));
    assert(!is_ascii_letter(l[i]));
}

/// `u8::is_ascii_whitespace`: space, tab, line feed, form feed, carriage return.
pub open spec fn is_ascii_ws(b: u8) -> bool {
    b == 0x20 || b == 0x09 || b == 0x0A || b == 0x0C || b == 0x0D
}

/// Index of the first byte from `i` on that is not ASCII whitespace.
pub open spec fn skip_ascii_ws(s: Seq<u8>, i: int) -> int
    decreases s.len() - i,
{
    if 0 <= i && i < s.len() && is_ascii_ws(s[i]) {
        skip_ascii_ws(s, i + 1)
    } else {
        i
    }
}

/// End of `s.take(j)` once ASCII whitespace at its end is removed.
pub open spec fn back_ascii_ws(s: Seq<u8>, j: int) -> int
    decreases j,
{
    if 0 < j && j <= s.len() && is_ascii_ws(s[j - 1]) {
        back_ascii_ws(s, j - 1)
    } else {
        j
    }
}

/// `s` with ASCII whitespace removed at both ends.
pub open spec fn trim_ascii(s: Seq<u8>) -> Seq<u8> {
    let t = s.subrange(skip_ascii_ws(s, 0), s.len() as int);
    t.subrange(0, back_ascii_ws(t, t.len() as int))
}

fn ascii_ws(b: u8) -> (r: bool)
    ensures
        r == is_ascii_ws(b),
{
    b == 0x20 || b == 0x09 || b == 0x0A || b == 0x0C || b == 0x0D
}

/// Removes ASCII whitespace from both ends of a byte string.
pub fn trim_bytes(s: &[u8]) -> (r: &[u8])
    ensures
        r@ == trim_ascii(s@),
{
    let n = s.len();
    let mut start: usize = 0;
    while start < n && ascii_ws(s[start])
        invariant
            n == s@.len(),
            0 <= start <= n,
            skip_ascii_ws(s@, start as int) == skip_ascii_ws(s@, 0),
        decreases n - start,
    {
        start += 1;
    }
    let t = slice_subrange(s, start, n);
    let mut end: usize = t.len();
    while end > 0 && ascii_ws(t[end - 1])
        invariant
            0 <= end <= t@.len(),
            back_ascii_ws(t@, end as int) == back_ascii_ws(t@, t@.len() as int),
        decreases end,
    {
        end -= 1;
    }
    slice_subrange(t, 0, end)
}

/// `[SetUp "1"]`: the game does not start from the normal initial position.
pub open spec fn spec_is_custom_start(setup_value: Option<Seq<u8>>) -> bool {
    match setup_value {
        Some(v) => trim_ascii(v) == seq![0x31u8],
        None => false,
    }
}

/// Returns true if `[SetUp "1"]` is present (surrounding ASCII whitespace
/// ignored), i.e. the game does not start from the initial position.
pub fn is_custom_start(setup_value: Option<&[u8]>) -> (r: bool)
    ensures
        r == spec_is_custom_start(
            match setup_value {
                Some(v) => Some(v@),
                None => None,
            },
        ),
{
    match setup_value {
        Some(v) => {
            let t = trim_bytes(v);
            let r = t.len() == 1 && t[0] == 0x31;
            assert(r == (t@ =~= seq![0x31u8]));
            r
        },
        None => false,
    }
}

} // verus!

//! Byte-level text primitives shared by the tag filters, the roster reader
//! and the PGN writer: whitespace trimming, decimal parsing and printing.
use vstd::prelude::*;
use vstd::slice::slice_subrange;

verus! {

// ---------------------------------------------------------------------------
// Byte equality
// ---------------------------------------------------------------------------

/// Compares two byte strings.
pub fn bytes_eq(a: &[u8], b: &[u8]) -> (r: bool)
    ensures
        r == (a@ == b@),
{
    if a.len() != b.len() {
        return false;
    }
    let mut i: usize = 0;
    while i < a.len()
        invariant
            a@.len() == b@.len(),
            0 <= i <= a@.len(),
            forall|k: int| 0 <= k < i ==> a@[k] == b@[k],
        decreases a@.len() - i,
    {
        if a[i] != b[i] {
            return false;
        }
        i += 1;
    }
    assert(a@ =~= b@);
    true
}

/// Copies a byte slice into a fresh vector.
pub fn to_bytes(s: &[u8]) -> (r: Vec<u8>)
    ensures
        r@ == s@,
{
    let mut out: Vec<u8> = Vec::new();
    let mut i: usize = 0;
    while i < s.len()
        invariant
            0 <= i <= s@.len(),
            out@ == s@.subrange(0, i as int),
        decreases s@.len() - i,
    {
        out.push(s[i]);
        i += 1;
        assert(out@ =~= s@.subrange(0, i as int));
    }
    assert(s@.subrange(0, s@.len() as int) =~= s@);
    out
}

/// Appends `src` to the end of `dst`.
pub fn append_bytes(dst: &mut Vec<u8>, src: &[u8])
    ensures
        final(dst)@ == old(dst)@ + src@,
{
    let mut i: usize = 0;
    while i < src.len()
        invariant
            0 <= i <= src@.len(),
            dst@ == old(dst)@ + src@.subrange(0, i as int),
        decreases src@.len() - i,
    {
        dst.push(src[i]);
        i += 1;
        assert(dst@ =~= old(dst)@ + src@.subrange(0, i as int));
    }
    assert(src@.subrange(0, src@.len() as int) =~= src@);
}

// ---------------------------------------------------------------------------
// ASCII case folding
// ---------------------------------------------------------------------------

/// `u8::to_ascii_lowercase`.
pub open spec fn lower(b: u8) -> u8 {
    if 0x41 <= b && b <= 0x5A {
        (b + 32) as u8
    } else {
        b
    }
}

/// `eq_ignore_ascii_case` on byte strings.
pub open spec fn eq_ignore_case(a: Seq<u8>, b: Seq<u8>) -> bool {
    a.len() == b.len() && forall|i: int| 0 <= i < a.len() ==> lower(a[i]) == lower(b[i])
}

pub fn eq_ignore_ascii_case(a: &[u8], b: &[u8]) -> (r: bool)
    ensures
        r == eq_ignore_case(a@, b@),
{
    if a.len() != b.len() {
        return false;
    }
    let mut i: usize = 0;
    while i < a.len()
        invariant
            a@.len() == b@.len(),
            0 <= i <= a@.len(),
            forall|k: int| 0 <= k < i ==> lower(a@[k]) == lower(b@[k]),
        decreases a@.len() - i,
    {
        let x = a[i];
        let y = b[i];
        let lx: u8 = if 0x41 <= x && x <= 0x5A { x + 32 } else { x };
        let ly: u8 = if 0x41 <= y && y <= 0x5A { y + 32 } else { y };
        if lx != ly {
            return false;
        }
        i += 1;
    }
    true
}

// ---------------------------------------------------------------------------
// Unicode whitespace, as `str::trim` removes it, seen through UTF-8 bytes
// ---------------------------------------------------------------------------

/// One-byte Unicode White_Space characters: U+0009..U+000D and U+0020.
pub open spec fn is_ws1(a: u8) -> bool {
    (0x09 <= a && a <= 0x0D) || a == 0x20
}

/// Two-byte encodings of White_Space characters: U+0085 and U+00A0.
pub open spec fn is_ws2(a: u8, b: u8) -> bool {
    a == 0xC2 && (b == 0x85 || b == 0xA0)
}

/// Three-byte encodings of White_Space characters: U+1680, U+2000..U+200A,
/// U+2028, U+2029, U+202F, U+205F and U+3000.
pub open spec fn is_ws3(a: u8, b: u8, c: u8) -> bool {
    ||| (a == 0xE1 && b == 0x9A && c == 0x80)
    ||| (a == 0xE2 && b == 0x80 && ((0x80 <= c && c <= 0x8A) || c == 0xA8 || c == 0xA9 || c
        == 0xAF))
    ||| (a == 0xE2 && b == 0x81 && c == 0x9F)
    ||| (a == 0xE3 && b == 0x80 && c == 0x80)
}

/// Length of the whitespace character whose encoding starts at `i`, or 0.
pub open spec fn ws_len_at(s: Seq<u8>, i: int) -> int {
    if 0 <= i && i < s.len() && is_ws1(s[i]) {
        1
    } else if 0 <= i && i + 1 < s.len() && is_ws2(s[i], s[i + 1]) {
        2
    } else if 0 <= i && i + 2 < s.len() && is_ws3(s[i], s[i + 1], s[i + 2]) {
        3
    } else {
        0
    }
}

/// Length of the whitespace character whose encoding ends just before `j`, or 0.
pub open spec fn ws_len_before(s: Seq<u8>, j: int) -> int {
    if 1 <= j && j <= s.len() && is_ws1(s[j - 1]) {
        1
    } else if 2 <= j && j <= s.len() && is_ws2(s[j - 2], s[j - 1]) {
        2
    } else if 3 <= j && j <= s.len() && is_ws3(s[j - 3], s[j - 2], s[j - 1]) {
        3
    } else {
        0
    }
}

/// Index of the first byte from `i` on that does not begin a whitespace character.
pub open spec fn skip_ws(s: Seq<u8>, i: int) -> int
    decreases s.len() - i,
{
    if 0 <= i && i < s.len() && ws_len_at(s, i) > 0 {
        skip_ws(s, i + ws_len_at(s, i))
    } else {
        i
    }
}

/// End of `s.take(j)` once whitespace characters at its end are removed.
pub open spec fn back_ws(s: Seq<u8>, j: int) -> int
    decreases j,
{
    if 0 < j && j <= s.len() && ws_len_before(s, j) > 0 {
        back_ws(s, j - ws_len_before(s, j))
    } else {
        j
    }
}

/// `s` without whitespace characters at its start.
pub open spec fn trim_start(s: Seq<u8>) -> Seq<u8> {
    s.subrange(skip_ws(s, 0), s.len() as int)
}

/// `s` without whitespace characters at its end.
pub open spec fn trim_end(s: Seq<u8>) -> Seq<u8> {
    s.subrange(0, back_ws(s, s.len() as int))
}

/// What `str::trim` leaves of the string that `s` encodes.
pub open spec fn trim(s: Seq<u8>) -> Seq<u8> {
    trim_end(trim_start(s))
}

fn is_ws1_byte(a: u8) -> (r: bool)
    ensures
        r == is_ws1(a),
{
    (0x09 <= a && a <= 0x0D) || a == 0x20
}

fn is_ws3_bytes(a: u8, b: u8, c: u8) -> (r: bool)
    ensures
        r == is_ws3(a, b, c),
{
    (a == 0xE1 && b == 0x9A && c == 0x80) || (a == 0xE2 && b == 0x80 && ((0x80 <= c && c <= 0x8A)
        || c == 0xA8 || c == 0xA9 || c == 0xAF)) || (a == 0xE2 && b == 0x81 && c == 0x9F) || (a
        == 0xE3 && b == 0x80 && c == 0x80)
}

fn ws_len_at_exec(s: &[u8], i: usize) -> (r: usize)
    requires
        i <= s@.len(),
    ensures
        r == ws_len_at(s@, i as int),
{
    let n = s.len();
    if i < n && is_ws1_byte(s[i]) {
        1
    } else if i < n && n - i > 1 && s[i] == 0xC2 && (s[i + 1] == 0x85 || s[i + 1] == 0xA0) {
        2
    } else if i < n && n - i > 2 && is_ws3_bytes(s[i], s[i + 1], s[i + 2]) {
        3
    } else {
        0
    }
}

fn ws_len_before_exec(s: &[u8], j: usize) -> (r: usize)
    requires
        j <= s@.len(),
    ensures
        r == ws_len_before(s@, j as int),
{
    if 1 <= j && is_ws1_byte(s[j - 1]) {
        1
    } else if 2 <= j && s[j - 2] == 0xC2 && (s[j - 1] == 0x85 || s[j - 1] == 0xA0) {
        2
    } else if 3 <= j && is_ws3_bytes(s[j - 3], s[j - 2], s[j - 1]) {
        3
    } else {
        0
    }
}

/// Removes whitespace characters (Unicode White_Space) from both ends,
/// as `str::trim` does on the text these bytes encode.
pub fn trim_ws(s: &[u8]) -> (r: &[u8])
    ensures
        r@ == trim(s@),
{
    let n = s.len();
    let mut i: usize = 0;
    loop
        invariant
            n == s@.len(),
            0 <= i <= n,
            skip_ws(s@, i as int) == skip_ws(s@, 0),
        ensures
            0 <= i <= n,
            skip_ws(s@, 0) == i,
        decreases n - i,
    {
        let k = ws_len_at_exec(s, i);
        if k == 0 {
            break ;
        }
        i = i + k;
    }
    let t = slice_subrange(s, i, n);
    assert(t@ =~= trim_start(s@));
    let mut j: usize = t.len();
    loop
        invariant
            0 <= j <= t@.len(),
            back_ws(t@, j as int) == back_ws(t@, t@.len() as int),
        ensures
            0 <= j <= t@.len(),
            back_ws(t@, t@.len() as int) == j,
        decreases j,
    {
        let k = ws_len_before_exec(t, j);
        if k == 0 {
            break ;
        }
        j = j - k;
    }
    slice_subrange(t, 0, j)
}

// ---------------------------------------------------------------------------
// Decimal numbers
// ---------------------------------------------------------------------------

pub open spec fn is_digit(b: u8) -> bool {
    0x30 <= b && b <= 0x39
}

pub open spec fn all_digits(s: Seq<u8>) -> bool {
    forall|i: int| 0 <= i < s.len() ==> is_digit(#[trigger] s[i])
}

/// The number that a string of ASCII digits spells in base ten.
pub open spec fn digits_value(s: Seq<u8>) -> nat
    decreases s.len(),
{
    if s.len() == 0 {
        0
    } else {
        digits_value(s.drop_last()) * 10 + (s.last() - 0x30) as nat
    }
}

/// The bound at which `scan_digits` stops counting.
pub open spec fn scan_cap() -> nat {
    0x1_0000_0000_0000_0000
}

pub open spec fn capped(v: nat) -> nat {
    if v < scan_cap() {
        v
    } else {
        scan_cap()
    }
}

/// Reads `s[from..]` as digits: `None` if any byte there is not a digit,
/// otherwise their value, capped at 2^64.
fn scan_digits(s: &[u8], from: usize) -> (r: Option<u128>)
    requires
        from <= s@.len(),
    ensures
        r is Some <==> all_digits(s@.subrange(from as int, s@.len() as int)),
        r matches Some(v) ==> v as nat == capped(digits_value(s@.subrange(from as int, s@.len() as int))),
{
    let n = s.len();
    let mut i: usize = from;
    let mut acc: u128 = 0;
    assert(s@.subrange(from as int, from as int) =~= Seq::<u8>::empty());
    while i < n
        invariant
            n == s@.len(),
            from <= i <= n,
            all_digits(s@.subrange(from as int, i as int)),
            acc as nat == capped(digits_value(s@.subrange(from as int, i as int))),
        decreases n - i,
    {
        let b = s[i];
        if !(0x30 <= b && b <= 0x39) {
            assert(s@.subrange(from as int, n as int)[i - from] == b);
            return None;
        }
        let ghost prev = s@.subrange(from as int, i as int);
        let ghost next = s@.subrange(from as int, i + 1);
        assert(next.drop_last() =~= prev);
        assert(next.last() == b);
        let d = (b - 0x30) as u128;
        let bigger = acc * 10 + d;
        acc = if bigger < 0x1_0000_0000_0000_0000u128 { bigger } else { 0x1_0000_0000_0000_0000u128 };
        i += 1;
        assert(all_digits(next)) by {
            assert forall|k: int| 0 <= k < next.len() implies is_digit(#[trigger] next[k]) by {
                if k < prev.len() {
                    assert(next[k] == prev[k]);
                }
            }
        }
    }
    Some(acc)
}

/// `str::parse::<i32>` on an ASCII string: an optional sign, then one or
/// more digits, in range.
pub open spec fn parse_i32(s: Seq<u8>) -> Option<i32> {
    if s.len() == 0 {
        None
    } else if (s[0] == 0x2B || s[0] == 0x2D) && s.len() == 1 {
        None
    } else {
        let signed = s[0] == 0x2B || s[0] == 0x2D;
        let digits = if signed { s.drop_first() } else { s };
        let v: int = if s[0] == 0x2D { -digits_value(digits) } else { digits_value(digits) as int };
        if all_digits(digits) && i32::MIN <= v && v <= i32::MAX {
            Some(v as i32)
        } else {
            None
        }
    }
}

/// `str::parse::<usize>` on an ASCII string: an optional `+`, then one or
/// more digits, in range.
pub open spec fn parse_usize(s: Seq<u8>) -> Option<usize> {
    if s.len() == 0 {
        None
    } else if s[0] == 0x2B && s.len() == 1 {
        None
    } else {
        let digits = if s[0] == 0x2B { s.drop_first() } else { s };
        if all_digits(digits) && digits_value(digits) <= usize::MAX {
            Some(digits_value(digits) as usize)
        } else {
            None
        }
    }
}

pub fn parse_i32_bytes(s: &[u8]) -> (r: Option<i32>)
    ensures
        r == parse_i32(s@),
{
    let n = s.len();
    if n == 0 {
        return None;
    }
    let first = s[0];
    let signed = first == 0x2B || first == 0x2D;
    if signed && n == 1 {
        return None;
    }
    let from: usize = if signed { 1 } else { 0 };
    assert(s@.subrange(from as int, n as int) =~= (if signed { s@.drop_first() } else { s@ }));
    match scan_digits(s, from) {
        None => None,
        Some(v) => {
            if first == 0x2D {
                if v <= 0x8000_0000u128 {
                    if v == 0x8000_0000u128 {
                        Some(i32::MIN)
                    } else {
                        let m = v as i32;
                        Some(-m)
                    }
                } else {
                    None
                }
            } else {
                if v <= 0x7FFF_FFFFu128 {
                    Some(v as i32)
                } else {
                    None
                }
            }
        },
    }
}

pub fn parse_usize_bytes(s: &[u8]) -> (r: Option<usize>)
    ensures
        r == parse_usize(s@),
{
    let n = s.len();
    if n == 0 {
        return None;
    }
    let plus = s[0] == 0x2B;
    if plus && n == 1 {
        return None;
    }
    let from: usize = if plus { 1 } else { 0 };
    assert(s@.subrange(from as int, n as int) =~= (if plus { s@.drop_first() } else { s@ }));
    match scan_digits(s, from) {
        None => None,
        Some(v) => {
            if v <= usize::MAX as u128 {
                Some(v as usize)
            } else {
                None
            }
        },
    }
}

/// Base-ten digits of `n`, as `format!("{}", n)` prints it.
pub open spec fn decimal(n: nat) -> Seq<u8>
    decreases n,
{
    if n < 10 {
        seq![(0x30 + n) as u8]
    } else {
        decimal(n / 10).push((0x30 + n % 10) as u8)
    }
}

/// Appends the base-ten digits of `n` to `out`.
pub fn push_decimal(out: &mut Vec<u8>, n: u64)
    ensures
        final(out)@ == old(out)@ + decimal(n as nat),
    decreases n,
{
    if n >= 10 {
        push_decimal(out, n / 10);
    }
    let d = (n % 10) as u8;
    out.push(0x30 + d);
    assert(out@ =~= old(out)@ + decimal(n as nat));
}

} // verus!

verus! {

/// The byte strings held by a vector of byte vectors.
pub open spec fn views(v: Seq<Vec<u8>>) -> Seq<Seq<u8>> {
    v.map_values(|x: Vec<u8>| x@)
}

} // verus!

//! Header values as `pgn-reader` hands them over, and the UTF-8 view of
//! them that the written PGN carries.
use vstd::prelude::*;

use pgn_reader::RawHeader;

verus! {

/// Whether `s[i]` is a backslash that escapes the `\` or `"` after it.
pub open spec fn escapes_next(s: Seq<u8>, i: int) -> bool {
    0 <= i && i + 1 < s.len() && s[i] == 0x5C && (s[i + 1] == 0x5C || s[i + 1] == 0x22)
}

/// A raw header value with every backslash that precedes a `\` or a `"`
/// removed.
pub open spec fn decode_header(s: Seq<u8>) -> Seq<u8>
    decreases s.len(),
{
    if s.len() == 0 {
        seq![]
    } else if escapes_next(s, 0) {
        decode_header(s.drop_first())
    } else {
        seq![s[0]] + decode_header(s.drop_first())
    }
}

/// `RawHeader::decode`: walks every backslash of the raw value and drops
/// it when the next byte is `\` or `"`; all other bytes are kept in order.
#[verifier::external_body]
pub(crate) fn decode_tag_value(raw: &[u8]) -> (r: Vec<u8>)
    ensures
        r@ == decode_header(raw@),
{
    RawHeader(raw).decode().into_owned()
}

/// What `String::from_utf8_lossy` makes of a byte string: each invalid
/// UTF-8 sequence replaced by U+FFFD.
pub uninterp spec fn utf8_lossy(bytes: Seq<u8>) -> Seq<u8>;

/// `String::from_utf8_lossy`, as bytes: the result is a function of the
/// input alone, and valid UTF-8 comes back unchanged. How invalid
/// sequences are replaced is not stated.
#[verifier::external_body]
pub(crate) fn lossy_utf8(bytes: &[u8]) -> (r: Vec<u8>)
    ensures
        r@ == utf8_lossy(bytes@),
        vstd::utf8::valid_utf8(bytes@) ==> r@ == bytes@,
{
    String::from_utf8_lossy(bytes).into_owned().into_bytes()
}

} // verus!

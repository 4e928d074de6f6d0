//! PGN tag names used by the filters, the roster and the writer.
use vstd::prelude::*;

verus! {

/// "Event", in bytes.
pub open spec fn tag_event() -> Seq<u8> {
    seq![0x45u8, 0x76, 0x65, 0x6E, 0x74]
}

/// The bytes of "Event".
pub fn tag_event_bytes() -> (r: Vec<u8>)
    ensures
        r@ == tag_event(),
{
    let r: Vec<u8> = vec![0x45u8, 0x76, 0x65, 0x6E, 0x74];
    assert(r@ =~= tag_event());
    r
}

/// "Site", in bytes.
pub open spec fn tag_site() -> Seq<u8> {
    seq![0x53u8, 0x69, 0x74, 0x65]
}

/// The bytes of "Site".
pub fn tag_site_bytes() -> (r: Vec<u8>)
    ensures
        r@ == tag_site(),
{
    let r: Vec<u8> = vec![0x53u8, 0x69, 0x74, 0x65];
    assert(r@ =~= tag_site());
    r
}

/// "Date", in bytes.
pub open spec fn tag_date() -> Seq<u8> {
    seq![0x44u8, 0x61, 0x74, 0x65]
}

/// The bytes of "Date".
pub fn tag_date_bytes() -> (r: Vec<u8>)
    ensures
        r@ == tag_date(),
{
    let r: Vec<u8> = vec![0x44u8, 0x61, 0x74, 0x65];
    assert(r@ =~= tag_date());
    r
}

/// "Round", in bytes.
pub open spec fn tag_round() -> Seq<u8> {
    seq![0x52u8, 0x6F, 0x75, 0x6E, 0x64]
}

/// The bytes of "Round".
pub fn tag_round_bytes() -> (r: Vec<u8>)
    ensures
        r@ == tag_round(),
{
    let r: Vec<u8> = vec![0x52u8, 0x6F, 0x75, 0x6E, 0x64];
    assert(r@ =~= tag_round());
    r
}

/// "White", in bytes.
pub open spec fn tag_white() -> Seq<u8> {
    seq![0x57u8, 0x68, 0x69, 0x74, 0x65]
}

/// The bytes of "White".
pub fn tag_white_bytes() -> (r: Vec<u8>)
    ensures
        r@ == tag_white(),
{
    let r: Vec<u8> = vec![0x57u8, 0x68, 0x69, 0x74, 0x65];
    assert(r@ =~= tag_white());
    r
}

/// "Black", in bytes.
pub open spec fn tag_black() -> Seq<u8> {
    seq![0x42u8, 0x6C, 0x61, 0x63, 0x6B]
}

/// The bytes of "Black".
pub fn tag_black_bytes() -> (r: Vec<u8>)
    ensures
        r@ == tag_black(),
{
    let r: Vec<u8> = vec![0x42u8, 0x6C, 0x61, 0x63, 0x6B];
    assert(r@ =~= tag_black());
    r
}

/// "WhiteElo", in bytes.
pub open spec fn tag_white_elo() -> Seq<u8> {
    seq![0x57u8, 0x68, 0x69, 0x74, 0x65, 0x45, 0x6C, 0x6F]
}

/// The bytes of "WhiteElo".
pub fn tag_white_elo_bytes() -> (r: Vec<u8>)
    ensures
        r@ == tag_white_elo(),
{
    let r: Vec<u8> = vec![0x57u8, 0x68, 0x69, 0x74, 0x65, 0x45, 0x6C, 0x6F];
    assert(r@ =~= tag_white_elo());
    r
}

/// "BlackElo", in bytes.
pub open spec fn tag_black_elo() -> Seq<u8> {
    seq![0x42u8, 0x6C, 0x61, 0x63, 0x6B, 0x45, 0x6C, 0x6F]
}

/// The bytes of "BlackElo".
pub fn tag_black_elo_bytes() -> (r: Vec<u8>)
    ensures
        r@ == tag_black_elo(),
{
    let r: Vec<u8> = vec![0x42u8, 0x6C, 0x61, 0x63, 0x6B, 0x45, 0x6C, 0x6F];
    assert(r@ =~= tag_black_elo());
    r
}

/// "Result", in bytes.
pub open spec fn tag_result() -> Seq<u8> {
    seq![0x52u8, 0x65, 0x73, 0x75, 0x6C, 0x74]
}

/// The bytes of "Result".
pub fn tag_result_bytes() -> (r: Vec<u8>)
    ensures
        r@ == tag_result(),
{
    let r: Vec<u8> = vec![0x52u8, 0x65, 0x73, 0x75, 0x6C, 0x74];
    assert(r@ =~= tag_result());
    r
}

/// "ECO", in bytes.
pub open spec fn tag_eco() -> Seq<u8> {
    seq![0x45u8, 0x43, 0x4F]
}

/// The bytes of "ECO".
pub fn tag_eco_bytes() -> (r: Vec<u8>)
    ensures
        r@ == tag_eco(),
{
    let r: Vec<u8> = vec![0x45u8, 0x43, 0x4F];
    assert(r@ =~= tag_eco());
    r
}

/// "Variant", in bytes.
pub open spec fn tag_variant() -> Seq<u8> {
    seq![0x56u8, 0x61, 0x72, 0x69, 0x61, 0x6E, 0x74]
}

/// The bytes of "Variant".
pub fn tag_variant_bytes() -> (r: Vec<u8>)
    ensures
        r@ == tag_variant(),
{
    let r: Vec<u8> = vec![0x56u8, 0x61, 0x72, 0x69, 0x61, 0x6E, 0x74];
    assert(r@ =~= tag_variant());
    r
}

/// "SetUp", in bytes.
pub open spec fn tag_setup() -> Seq<u8> {
    seq![0x53u8, 0x65, 0x74, 0x55, 0x70]
}

/// The bytes of "SetUp".
pub fn tag_setup_bytes() -> (r: Vec<u8>)
    ensures
        r@ == tag_setup(),
{
    let r: Vec<u8> = vec![0x53u8, 0x65, 0x74, 0x55, 0x70];
    assert(r@ =~= tag_setup());
    r
}

/// "FEN", in bytes.
pub open spec fn tag_fen() -> Seq<u8> {
    seq![0x46u8, 0x45, 0x4E]
}

/// The bytes of "FEN".
pub fn tag_fen_bytes() -> (r: Vec<u8>)
    ensures
        r@ == tag_fen(),
{
    let r: Vec<u8> = vec![0x46u8, 0x45, 0x4E];
    assert(r@ =~= tag_fen());
    r
}

/// "PlyCount", in bytes.
pub open spec fn tag_ply_count() -> Seq<u8> {
    seq![0x50u8, 0x6C, 0x79, 0x43, 0x6F, 0x75, 0x6E, 0x74]
}

/// The bytes of "PlyCount".
pub fn tag_ply_count_bytes() -> (r: Vec<u8>)
    ensures
        r@ == tag_ply_count(),
{
    let r: Vec<u8> = vec![0x50u8, 0x6C, 0x79, 0x43, 0x6F, 0x75, 0x6E, 0x74];
    assert(r@ =~= tag_ply_count());
    r
}

} // verus!
